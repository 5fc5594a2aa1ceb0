//! Per-request authentication: selects the credential a route group's
//! scheme demands, validates it, and resolves the one principal the
//! request proceeds with — or rejects the request before any handler
//! runs, with no detail beyond the status leaked to the caller.

use vstd::prelude::*;

use crate::api_key::{api_key_of, validate_api_key, wf_key_parts};
use crate::errors::AuthError;
use crate::principal::{spec_agent_principal, spec_user_principal, Principal};
use crate::token::{
    is_signed_token, is_tampered_token, token_of, verify_token, wf_claims, ClaimsView,
};

verus! {

/// How a route group authenticates its callers.
#[derive(Clone, Copy, Debug, PartialEq, Eq, Structural)]
pub enum AuthScheme {
    Public,
    SessionToken,
    ApiKey,
}

/// The route groups the router composes, each bound to one scheme.
#[derive(Clone, Copy, Debug, PartialEq, Eq, Structural)]
pub enum RouteGroup {
    Auth,
    DashboardApi,
    Ingest,
    Realtime,
    Root,
    Healthz,
    Version,
    OpenApiDoc,
}

/// The declarative table from route group to required scheme: dashboard
/// data is session-protected, ingest is key-protected, the rest is
/// public.
pub open spec fn spec_scheme_of(g: RouteGroup) -> AuthScheme {
    match g {
        RouteGroup::DashboardApi => AuthScheme::SessionToken,
        RouteGroup::Ingest => AuthScheme::ApiKey,
        _ => AuthScheme::Public,
    }
}

/// The scheme a route group authenticates under.
pub fn scheme_of(g: &RouteGroup) -> (s: AuthScheme)
    ensures
        s == spec_scheme_of(*g),
{
    match g {
        RouteGroup::DashboardApi => AuthScheme::SessionToken,
        RouteGroup::Ingest => AuthScheme::ApiKey,
        _ => AuthScheme::Public,
    }
}

/// The token inside an `Authorization: Bearer <token>` header value.
pub open spec fn spec_bearer(h: Seq<char>) -> Option<Seq<char>> {
    if h.len() >= 7 && h.subrange(0, 7) == "Bearer "@ {
        Some(h.skip(7))
    } else {
        None
    }
}

/// Strips the bearer prefix from an authorization header value.
pub fn bearer_token(header: &str) -> (r: Option<&str>)
    ensures
        r matches Some(tk) ==> spec_bearer(header@) == Some(tk@),
        r is None ==> spec_bearer(header@) is None,
{
    proof {
        reveal_strlit("Bearer ");
    }
    let n: usize = header.unicode_len();
    if n < 7 {
        return None;
    }
    let prefix = header.substring_char(0, 7);
    if String::from_str(prefix) == String::from_str("Bearer ") {
        let rest = header.substring_char(7, n);
        proof {
            assert(rest@ =~= header@.skip(7));
        }
        Some(rest)
    } else {
        None
    }
}

/// The session credential a request presents: the signed cookie's value
/// first, else the bearer token of the authorization header.
pub open spec fn spec_selected_token(
    cookie: Option<Seq<char>>,
    authorization: Option<Seq<char>>,
) -> Option<Seq<char>> {
    match cookie {
        Some(tok) => Some(tok),
        None => match authorization {
            Some(h) => spec_bearer(h),
            None => None,
        },
    }
}

/// The view of an optional string.
pub open spec fn opt_view(o: Option<String>) -> Option<Seq<char>> {
    match o {
        Some(s) => Some(s@),
        None => None,
    }
}

/// Authenticates a session-protected request: the cookie's token if one
/// is present, else the bearer token, fed to the token codec; a request
/// with neither credential is rejected outright.
pub fn authenticate_session(
    secret: &[u8],
    cookie_token: Option<String>,
    authorization: Option<String>,
    now: i64,
) -> (r: Result<Principal, AuthError>)
    ensures
        spec_selected_token(opt_view(cookie_token), opt_view(authorization)) is None ==> r == Err::<
            Principal,
            AuthError,
        >(AuthError::MissingCredential),
        r matches Ok(p) ==> (spec_selected_token(opt_view(cookie_token), opt_view(authorization))
            matches Some(tk) && exists|c: ClaimsView|
            wf_claims(c) && tk == token_of(secret@, c) && now < c.exp && p@
                == spec_user_principal(c)),
        forall|c: ClaimsView|
            (spec_selected_token(opt_view(cookie_token), opt_view(authorization)) is Some
                && #[trigger] is_signed_token(
                secret@,
                spec_selected_token(opt_view(cookie_token), opt_view(authorization))->0,
                c,
            ) && now < c.exp) ==> (r matches Ok(p) && p@ == spec_user_principal(c)),
        forall|c: ClaimsView|
            (spec_selected_token(opt_view(cookie_token), opt_view(authorization)) is Some
                && #[trigger] is_signed_token(
                secret@,
                spec_selected_token(opt_view(cookie_token), opt_view(authorization))->0,
                c,
            ) && now >= c.exp) ==> r == Err::<Principal, AuthError>(AuthError::ExpiredToken),
        forall|c: ClaimsView, sig2: Seq<char>|
            (spec_selected_token(opt_view(cookie_token), opt_view(authorization)) is Some
                && #[trigger] is_tampered_token(
                secret@,
                spec_selected_token(opt_view(cookie_token), opt_view(authorization))->0,
                c,
                sig2,
            )) ==> r == Err::<Principal, AuthError>(AuthError::SignatureInvalid),
        r is Err ==> (r->Err_0 == AuthError::MissingCredential || r->Err_0
            == AuthError::MalformedCredential || r->Err_0 == AuthError::ExpiredToken || r->Err_0
            == AuthError::SignatureInvalid),
{
    let token_string: Option<String> = match cookie_token {
        Some(tok) => Some(tok),
        None => match authorization {
            Some(h) => match bearer_token(h.as_str()) {
                Some(tk) => Some(String::from_str(tk)),
                None => None,
            },
            None => None,
        },
    };
    match token_string {
        None => Err(AuthError::MissingCredential),
        Some(tok) => match verify_token(secret, tok.as_str(), now) {
            Ok(claims) => Ok(Principal::from_claims(claims)),
            Err(e) => Err(e),
        },
    }
}

/// Authenticates a key-protected request: the dedicated key header fed
/// to the structural validator; a request without the header is
/// rejected outright.
pub fn authenticate_api_key(
    configured_prefix: &str,
    api_key_header: Option<String>,
) -> (r: Result<Principal, AuthError>)
    ensures
        api_key_header is None ==> r == Err::<Principal, AuthError>(AuthError::MissingCredential),
        r matches Ok(p) ==> (api_key_header matches Some(k) && exists|
            org: Seq<char>,
            agent: Seq<char>,
            sec: Seq<char>,
        |
            wf_key_parts(configured_prefix@, org, agent, sec) && k@ == api_key_of(
                configured_prefix@,
                org,
                agent,
                sec,
            ) && p@ == spec_agent_principal(configured_prefix@, org, agent)),
        forall|org: Seq<char>, agent: Seq<char>, sec: Seq<char>|
            (api_key_header is Some && wf_key_parts(configured_prefix@, org, agent, sec)
                && api_key_header->0@ == #[trigger] api_key_of(
                configured_prefix@,
                org,
                agent,
                sec,
            )) ==> (r matches Ok(p) && p@ == spec_agent_principal(configured_prefix@, org, agent)),
        forall|p2: Seq<char>, org: Seq<char>, agent: Seq<char>, sec: Seq<char>|
            (api_key_header is Some && wf_key_parts(p2, org, agent, sec) && api_key_header->0@
                == #[trigger] api_key_of(p2, org, agent, sec) && p2 != configured_prefix@) ==> r
                == Err::<Principal, AuthError>(AuthError::PrefixMismatch),
        r is Err ==> (r->Err_0 == AuthError::MissingCredential || r->Err_0
            == AuthError::MalformedApiKey || r->Err_0 == AuthError::PrefixMismatch),
{
    match api_key_header {
        None => Err(AuthError::MissingCredential),
        Some(k) => match validate_api_key(k.as_str(), configured_prefix) {
            Ok(auth) => Ok(Principal::from_agent(auth)),
            Err(e) => Err(e),
        },
    }
}

/// Authenticates a request for a route group: public groups skip
/// authentication entirely; protected groups resolve a principal or
/// reject the request before any handler runs. A session-protected
/// request with neither cookie nor bearer header is always rejected.
pub fn authenticate_request(
    group: &RouteGroup,
    secret: &[u8],
    configured_prefix: &str,
    cookie_token: Option<String>,
    authorization: Option<String>,
    api_key_header: Option<String>,
    now: i64,
) -> (r: Result<Option<Principal>, AuthError>)
    ensures
        spec_scheme_of(*group) == AuthScheme::Public ==> (r matches Ok(p) && p is None),
        spec_scheme_of(*group) == AuthScheme::SessionToken && cookie_token is None
            && authorization is None ==> r == Err::<Option<Principal>, AuthError>(
            AuthError::MissingCredential,
        ),
        spec_scheme_of(*group) == AuthScheme::ApiKey && api_key_header is None ==> r == Err::<
            Option<Principal>,
            AuthError,
        >(AuthError::MissingCredential),
        spec_scheme_of(*group) == AuthScheme::SessionToken ==> ((r matches Ok(p) ==> (p
            matches Some(q) && exists|c: ClaimsView|
            wf_claims(c) && now < c.exp && q@ == spec_user_principal(c) && (spec_selected_token(
                opt_view(cookie_token),
                opt_view(authorization),
            ) matches Some(tk) && tk == token_of(secret@, c)))) && (forall|c: ClaimsView|
            (spec_selected_token(opt_view(cookie_token), opt_view(authorization)) is Some
                && #[trigger] is_signed_token(
                secret@,
                spec_selected_token(opt_view(cookie_token), opt_view(authorization))->0,
                c,
            ) && now < c.exp) ==> (r matches Ok(p) && p matches Some(q) && q@
                == spec_user_principal(c)))),
        spec_scheme_of(*group) == AuthScheme::ApiKey ==> ((r matches Ok(p) ==> (p matches Some(q)
            && exists|org: Seq<char>, agent: Seq<char>, sec: Seq<char>|
            wf_key_parts(configured_prefix@, org, agent, sec) && (api_key_header matches Some(k)
                && k@ == api_key_of(configured_prefix@, org, agent, sec)) && q@
                == spec_agent_principal(configured_prefix@, org, agent))) && (forall|
            org: Seq<char>,
            agent: Seq<char>,
            sec: Seq<char>,
        |
            (api_key_header is Some && wf_key_parts(configured_prefix@, org, agent, sec)
                && api_key_header->0@ == #[trigger] api_key_of(
                configured_prefix@,
                org,
                agent,
                sec,
            )) ==> (r matches Ok(p) && p matches Some(q) && q@ == spec_agent_principal(
                configured_prefix@,
                org,
                agent,
            )))),
{
    match scheme_of(group) {
        AuthScheme::Public => Ok(None),
        AuthScheme::SessionToken => {
            match authenticate_session(secret, cookie_token, authorization, now) {
                Ok(p) => Ok(Some(p)),
                Err(e) => Err(e),
            }
        },
        AuthScheme::ApiKey => {
            match authenticate_api_key(configured_prefix, api_key_header) {
                Ok(p) => Ok(Some(p)),
                Err(e) => Err(e),
            }
        },
    }
}

} // verus!
