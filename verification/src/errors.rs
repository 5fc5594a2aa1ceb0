//! The closed error taxonomy of the authentication core, and the
//! response status each error surfaces as.

use vstd::prelude::*;

verus! {

/// Why a request's credential was rejected. Logged in full internally;
/// surfaced to the caller only as a status code, so that the reason for
/// a rejection cannot be probed from outside.
#[derive(Clone, Copy, Debug, PartialEq, Eq, Structural)]
pub enum AuthError {
    /// No cookie and no bearer header, or no key header at all.
    MissingCredential,
    /// The credential does not have the shape of a session token.
    MalformedCredential,
    /// The token's signature verified but its validity window is over.
    ExpiredToken,
    /// The token's signature does not match its payload.
    SignatureInvalid,
    /// The key does not have four non-empty delimited segments.
    MalformedApiKey,
    /// The key's first segment is not the configured prefix.
    PrefixMismatch,
    /// A valid principal lacks the role the route requires.
    InsufficientRole,
}

/// The status an authentication or authorization error surfaces as:
/// 403 only for a valid principal with an insufficient role, 401 for
/// every credential failure, with no finer distinction leaked.
pub open spec fn spec_status_of(e: AuthError) -> u16 {
    match e {
        AuthError::InsufficientRole => 403,
        _ => 401,
    }
}

impl AuthError {
    /// The response status this error surfaces as.
    pub fn status_code(&self) -> (r: u16)
        ensures
            r == spec_status_of(*self),
            r == 401 || r == 403,
            r == 403 <==> *self == AuthError::InsufficientRole,
    {
        match self {
            AuthError::InsufficientRole => 403,
            _ => 401,
        }
    }
}

/// Boot-time configuration failure: secret material is absent or too
/// short. Fatal: the process must not start, and must never fall back
/// to a weak default outside an explicitly flagged development mode.
#[derive(Clone, Copy, Debug, PartialEq, Eq, Structural)]
pub enum ConfigError {
    MissingJwtSecret,
    JwtSecretTooShort,
    MissingCookieSecret,
    CookieSecretTooShort,
}

} // verus!
