use anticheat::handlers::{
    agent_echo, check_credentials, dashboard_echo, event_in_scope, forgot_password_status,
    login_attempt, session_cookie,
};
use anticheat::pagination::{default_page, default_per_page, page_meta, PaginationParams};
use anticheat::roles::Role;
use anticheat::token::verify_token;

const SECRET: &[u8] = b"0123456789abcdef0123456789abcdef";

#[test]
fn demo_credentials_check() {
    assert!(check_credentials("test@example.com", "password"));
    assert!(!check_credentials("test@example.com", "wrong"));
    assert!(!check_credentials("other@example.com", "password"));
    assert!(!check_credentials("", ""));
}

#[test]
fn login_issues_verifiable_admin_session() {
    let (claims, token) = login_attempt(
        SECRET,
        "test@example.com".to_string(),
        "password".to_string(),
    )
    .expect("demo login succeeds");
    assert_eq!(claims.org_id, "org_a");
    assert_eq!(claims.role, Role::Admin);
    let verified = verify_token(SECRET, &token, claims.iat + 1).expect("issued token verifies");
    assert_eq!(verified.sub, "test@example.com");
    assert_eq!(verified.org_id, "org_a");
    assert_eq!(verified.role, Role::Admin);
}

#[test]
fn wrong_password_issues_nothing() {
    assert!(login_attempt(SECRET, "test@example.com".to_string(), "nope".to_string()).is_none());
    assert!(login_attempt(SECRET, "eve@example.com".to_string(), "password".to_string()).is_none());
}

#[test]
fn session_cookie_attributes() {
    let c = session_cookie("tok".to_string());
    assert_eq!(c.name, "jwt_token");
    assert_eq!(c.value, "tok");
    assert!(c.http_only);
    assert!(c.secure);
    assert!(c.same_site_strict);
    assert_eq!(c.path, "/");
    assert_eq!(c.max_age_seconds, 86400);
}

#[test]
fn forgot_password_statuses() {
    assert_eq!(forgot_password_status("test@example.com"), 200);
    assert_eq!(forgot_password_status("other@example.com"), 404);
    assert_eq!(forgot_password_status(""), 404);
}

#[test]
fn events_outside_the_agents_org_are_dropped() {
    let acme = "acme".to_string();
    assert!(event_in_scope(&Some("acme".to_string()), &acme));
    assert!(!event_in_scope(&Some("evil".to_string()), &acme));
    assert!(!event_in_scope(&None, &acme));
}

#[test]
fn echo_replies_carry_the_org_scope() {
    assert_eq!(dashboard_echo("acme", "hi"), "Org acme: You said: hi");
    assert_eq!(agent_echo("acme", "ping"), "Agent (Org acme): Received: ping");
}

#[test]
fn pagination_defaults() {
    assert_eq!(default_page(), 1);
    assert_eq!(default_per_page(), 20);
}

#[test]
fn pagination_ranges() {
    assert!(PaginationParams { page: 1, per_page: 1 }.validate());
    assert!(PaginationParams { page: 1000, per_page: 100 }.validate());
    assert!(!PaginationParams { page: 0, per_page: 20 }.validate());
    assert!(!PaginationParams { page: 1001, per_page: 20 }.validate());
    assert!(!PaginationParams { page: 1, per_page: 0 }.validate());
    assert!(!PaginationParams { page: 1, per_page: 101 }.validate());
}

#[test]
fn page_counts_round_up() {
    assert_eq!(page_meta(1, 20, 0).total_pages, 0);
    assert_eq!(page_meta(1, 20, 1).total_pages, 1);
    assert_eq!(page_meta(1, 20, 20).total_pages, 1);
    assert_eq!(page_meta(1, 20, 21).total_pages, 2);
    assert_eq!(page_meta(2, 20, 100).total_pages, 5);
    let m = page_meta(3, 7, 50);
    assert_eq!(m.page, 3);
    assert_eq!(m.per_page, 7);
    assert_eq!(m.total, 50);
    assert_eq!(m.total_pages, 8);
}
