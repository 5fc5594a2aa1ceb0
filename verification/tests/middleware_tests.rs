use anticheat::errors::AuthError;
use anticheat::guard::require_role;
use anticheat::middleware::{
    authenticate_api_key, authenticate_request, authenticate_session, bearer_token, scheme_of,
    AuthScheme, RouteGroup,
};
use anticheat::principal::Principal;
use anticheat::roles::Role;
use anticheat::token::issue_at;

const SECRET: &[u8] = b"0123456789abcdef0123456789abcdef";

fn issue_token(sub: &str, org: &str, role: Role) -> String {
    issue_at(SECRET, sub.to_string(), org.to_string(), role, 1000).1
}

#[test]
fn no_cookie_and_no_header_is_401() {
    let r = authenticate_session(SECRET, None, None, 1001);
    assert_eq!(r.as_ref().err(), Some(&AuthError::MissingCredential));
    assert_eq!(r.err().unwrap().status_code(), 401);
}

#[test]
fn cookie_token_authenticates() {
    let token = issue_token("alice", "acme", Role::Admin);
    let p = authenticate_session(SECRET, Some(token), None, 1001).expect("session resolves");
    match p {
        Principal::User { user_id, org_id, role, issued_at, expires_at } => {
            assert_eq!(user_id, "alice");
            assert_eq!(org_id, "acme");
            assert_eq!(role, Role::Admin);
            assert_eq!(issued_at, 1000);
            assert_eq!(expires_at, 1000 + 86400);
        },
        Principal::Agent { .. } => panic!("expected a user principal"),
    }
}

#[test]
fn bearer_header_authenticates_when_no_cookie() {
    let token = issue_token("bob", "acme", Role::Viewer);
    let header = format!("Bearer {token}");
    let p = authenticate_session(SECRET, None, Some(header), 1001).expect("session resolves");
    assert_eq!(p.org_id().as_str(), "acme");
}

#[test]
fn cookie_wins_over_header() {
    let cookie_token = issue_token("alice", "org1", Role::Admin);
    let header_token = issue_token("bob", "org2", Role::Viewer);
    let p = authenticate_session(
        SECRET,
        Some(cookie_token),
        Some(format!("Bearer {header_token}")),
        1001,
    )
    .expect("session resolves");
    assert_eq!(p.org_id().as_str(), "org1");
}

#[test]
fn non_bearer_header_is_missing_credential() {
    let r = authenticate_session(SECRET, None, Some("Basic abc".to_string()), 1001);
    assert_eq!(r.err(), Some(AuthError::MissingCredential));
}

#[test]
fn bearer_prefix_must_match_exactly() {
    assert!(bearer_token("Bearer abc").is_some());
    assert_eq!(bearer_token("Bearer abc").unwrap(), "abc");
    assert!(bearer_token("bearer abc").is_none());
    assert!(bearer_token("Bearer").is_none());
    assert!(bearer_token("").is_none());
}

#[test]
fn expired_and_tampered_sessions_surface_as_401() {
    let token = issue_token("alice", "acme", Role::Admin);
    let expired = authenticate_session(SECRET, Some(token.clone()), None, 1000 + 86400);
    assert_eq!(expired.as_ref().err(), Some(&AuthError::ExpiredToken));
    assert_eq!(expired.err().unwrap().status_code(), 401);
    let mut tampered = token.into_bytes();
    let last = tampered.len() - 1;
    tampered[last] = if tampered[last] == b'A' { b'B' } else { b'A' };
    let tampered = String::from_utf8(tampered).unwrap();
    let r = authenticate_session(SECRET, Some(tampered), None, 1001);
    assert_eq!(r.as_ref().err(), Some(&AuthError::SignatureInvalid));
    assert_eq!(r.err().unwrap().status_code(), 401);
}

#[test]
fn api_key_header_authenticates_agent() {
    let p = authenticate_api_key("org", Some("org_acme_agent7_xK9mQ2pL8vN4rT6w".to_string()))
        .expect("key resolves");
    match p {
        Principal::Agent { org_id, agent_id, key_fingerprint } => {
            assert_eq!(org_id, "acme");
            assert_eq!(agent_id, "agent7");
            assert_eq!(key_fingerprint, "org_acme_agent7");
        },
        Principal::User { .. } => panic!("expected an agent principal"),
    }
}

#[test]
fn missing_api_key_header_is_401() {
    let r = authenticate_api_key("org", None);
    assert_eq!(r.as_ref().err(), Some(&AuthError::MissingCredential));
    assert_eq!(r.err().unwrap().status_code(), 401);
}

#[test]
fn viewer_on_admin_route_is_403() {
    let token = issue_token("alice", "acme", Role::Viewer);
    let p = authenticate_session(SECRET, Some(token), None, 1001).expect("session resolves");
    let r = require_role(&p, &vec![Role::Admin]);
    assert_eq!(r.as_ref().err(), Some(&AuthError::InsufficientRole));
    assert_eq!(r.err().unwrap().status_code(), 403);
}

#[test]
fn admin_on_admin_route_passes() {
    let token = issue_token("alice", "acme", Role::Admin);
    let p = authenticate_session(SECRET, Some(token), None, 1001).expect("session resolves");
    assert!(require_role(&p, &vec![Role::Admin]).is_ok());
    assert!(require_role(&p, &vec![Role::Viewer, Role::Admin]).is_ok());
    assert!(require_role(&p, &vec![Role::Viewer]).is_err());
}

#[test]
fn agent_principal_never_passes_role_check() {
    let p = authenticate_api_key("org", Some("org_acme_agent7_secret".to_string())).unwrap();
    assert_eq!(require_role(&p, &vec![Role::Admin]), Err(AuthError::InsufficientRole));
}

#[test]
fn route_table_binds_each_group_to_its_scheme() {
    assert_eq!(scheme_of(&RouteGroup::DashboardApi), AuthScheme::SessionToken);
    assert_eq!(scheme_of(&RouteGroup::Ingest), AuthScheme::ApiKey);
    assert_eq!(scheme_of(&RouteGroup::Auth), AuthScheme::Public);
    assert_eq!(scheme_of(&RouteGroup::Realtime), AuthScheme::Public);
    assert_eq!(scheme_of(&RouteGroup::Root), AuthScheme::Public);
    assert_eq!(scheme_of(&RouteGroup::Healthz), AuthScheme::Public);
    assert_eq!(scheme_of(&RouteGroup::Version), AuthScheme::Public);
    assert_eq!(scheme_of(&RouteGroup::OpenApiDoc), AuthScheme::Public);
}

#[test]
fn protected_route_without_credentials_rejects_before_handlers() {
    let r = authenticate_request(&RouteGroup::DashboardApi, SECRET, "org", None, None, None, 0);
    assert_eq!(r.err(), Some(AuthError::MissingCredential));
    let r = authenticate_request(&RouteGroup::Ingest, SECRET, "org", None, None, None, 0);
    assert_eq!(r.err(), Some(AuthError::MissingCredential));
}

#[test]
fn public_route_needs_no_principal() {
    let r = authenticate_request(&RouteGroup::Healthz, SECRET, "org", None, None, None, 0);
    assert!(matches!(r, Ok(None)));
}

#[test]
fn interleaved_sessions_resolve_independently() {
    // two different valid tokens in flight at once: each resolves to its
    // own principal from its own token alone, with nothing shared to
    // leak across requests — validation holds no state besides the
    // read-only secret
    let t1 = issue_token("alice", "org_one", Role::Admin);
    let t2 = issue_token("bob", "org_two", Role::Viewer);
    let p1 = authenticate_session(SECRET, Some(t1.clone()), None, 1001).expect("session resolves");
    let p2 = authenticate_session(SECRET, Some(t2), None, 1001).expect("session resolves");
    let p1_again = authenticate_session(SECRET, Some(t1), None, 1001).expect("session resolves");
    assert_eq!(p1.org_id().as_str(), p1_again.org_id().as_str());
    assert_eq!(p1.org_id().as_str(), "org_one");
    assert_eq!(p2.org_id().as_str(), "org_two");
    match (p1, p2) {
        (
            Principal::User { user_id: u1, role: r1, .. },
            Principal::User { user_id: u2, role: r2, .. },
        ) => {
            assert_eq!(u1, "alice");
            assert_eq!(r1, Role::Admin);
            assert_eq!(u2, "bob");
            assert_eq!(r2, Role::Viewer);
        },
        _ => panic!("expected two user principals"),
    }
}
