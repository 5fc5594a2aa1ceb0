//! The decision logic of the request handlers: the demo credential
//! check and session issuance of the login route, the cookie a fresh
//! session is delivered in, the organization-scope filter of the ingest
//! route, and the echo replies of the realtime sockets. The surrounding
//! transport is not here; handlers receive plain values and hand plain
//! values back.

use vstd::prelude::*;

use crate::roles::Role;
use crate::strutil::push_char;
use crate::token::{issue, token_of, wf_claims, Claims, TOKEN_VALIDITY_SECONDS};

verus! {

/// A login request body.
pub struct LoginRequest {
    pub email: String,
    pub password: String,
}

/// A login response body.
pub struct LoginResponse {
    pub message: String,
}

/// A password-reset request body.
pub struct ForgotPasswordRequest {
    pub email: String,
}

/// A health probe response body.
pub struct HealthzResponse {
    pub status: String,
}

/// A build identification response body.
pub struct VersionResponse {
    pub version: String,
    pub git_sha: String,
    pub build_time: String,
}

/// Whether the presented login matches the demo credentials. A real
/// credential store is outside the scope of this core; this check only
/// marks the seam where one would be consulted.
pub fn check_credentials(email: &str, password: &str) -> (r: bool)
    ensures
        r == (email@ == "test@example.com"@ && password@ == "password"@),
{
    let e_ok = String::from_str(email) == String::from_str("test@example.com");
    let p_ok = String::from_str(password) == String::from_str("password");
    e_ok && p_ok
}

/// Handles a login: on the demo credentials, issues a session for the
/// demo organization with the admin role and returns the claims with
/// their signed token; on anything else, no session exists.
pub fn login_attempt(secret: &[u8], email: String, password: String) -> (r: Option<(
    Claims,
    String,
)>)
    ensures
        r is Some <==> (email@ == "test@example.com"@ && password@ == "password"@),
        r matches Some(p) ==> p.0@.sub == email@ && p.0@.org_id == "org_a"@ && p.0@.role
            == Role::Admin && p.0@.exp == p.0@.iat + TOKEN_VALIDITY_SECONDS && wf_claims(p.0@)
            && p.1@ == token_of(secret@, p.0@),
{
    proof {
        reveal_strlit("org_a");
    }
    if check_credentials(email.as_str(), password.as_str()) {
        let org = String::from_str("org_a");
        Some(issue(secret, email, org, Role::Admin))
    } else {
        None
    }
}

/// The cookie a fresh session token is delivered in.
pub struct SessionCookie {
    pub name: String,
    pub value: String,
    pub http_only: bool,
    pub secure: bool,
    pub same_site_strict: bool,
    pub path: String,
    pub max_age_seconds: i64,
}

/// Wraps a token in the session cookie: named `jwt_token`, HttpOnly,
/// Secure, SameSite=Strict, rooted at `/`, living exactly as long as
/// the token's validity window.
pub fn session_cookie(token: String) -> (r: SessionCookie)
    ensures
        r.name@ == "jwt_token"@,
        r.value@ == token@,
        r.http_only,
        r.secure,
        r.same_site_strict,
        r.path@ == "/"@,
        r.max_age_seconds == TOKEN_VALIDITY_SECONDS,
{
    SessionCookie {
        name: String::from_str("jwt_token"),
        value: token,
        http_only: true,
        secure: true,
        same_site_strict: true,
        path: String::from_str("/"),
        max_age_seconds: TOKEN_VALIDITY_SECONDS,
    }
}

/// The status of a password-reset request: found for the demo account,
/// not found for every other address.
pub fn forgot_password_status(email: &str) -> (r: u16)
    ensures
        r == 200 <==> email@ == "test@example.com"@,
        r == 200 || r == 404,
{
    if String::from_str(email) == String::from_str("test@example.com") {
        200
    } else {
        404
    }
}

/// Whether an ingested event belongs to the authenticated agent's
/// organization: events that name no organization, or another one, are
/// dropped — the multi-tenancy isolation invariant at the ingest edge.
pub fn event_in_scope(event_org: &Option<String>, agent_org: &String) -> (r: bool)
    ensures
        r == ((*event_org) matches Some(o) && o@ == agent_org@),
{
    match event_org {
        Some(o) => o.eq(agent_org),
        None => false,
    }
}

/// The echo reply of the dashboard socket, prefixed with the caller's
/// organization scope.
pub fn dashboard_echo(org: &str, text: &str) -> (r: String)
    ensures
        r@ == "Org "@ + org@ + ": You said: "@ + text@,
{
    let mut s = String::from_str("Org ");
    s.append(org);
    s.append(": You said: ");
    s.append(text);
    s
}

/// The echo reply of the agent ingest socket, prefixed with the
/// caller's organization scope.
pub fn agent_echo(org: &str, text: &str) -> (r: String)
    ensures
        r@ == "Agent (Org "@ + org@ + "): Received: "@ + text@,
{
    let mut s = String::from_str("Agent (Org ");
    s.append(org);
    s.append("): Received: ");
    s.append(text);
    s
}

} // verus!
