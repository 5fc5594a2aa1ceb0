//! Process configuration: explicit immutable values constructed once at
//! startup and passed by reference into the middleware layer — no
//! global mutable state and no access-order dependency.

use vstd::prelude::*;

verus! {

/// The deployment settings an operator supplies.
pub struct Settings {
    pub database_url: String,
    pub redis_url: String,
    pub jwt_secret: String,
    pub api_key_prefix: String,
    pub port: u16,
}

/// The immutable per-process state every request handler shares: the
/// cookie-signing key, the session-signing secret, and the configured
/// API key prefix. Read-only after boot, so concurrent requests need no
/// synchronization over it.
pub struct AppState {
    pub cookie_key: Vec<u8>,
    pub jwt_secret: Vec<u8>,
    pub api_key_prefix: String,
}

impl AppState {
    /// Packs the validated per-process state.
    pub fn new(cookie_key: Vec<u8>, jwt_secret: Vec<u8>, api_key_prefix: String) -> (r: AppState)
        ensures
            r.cookie_key@ == cookie_key@,
            r.jwt_secret@ == jwt_secret@,
            r.api_key_prefix@ == api_key_prefix@,
    {
        AppState { cookie_key, jwt_secret, api_key_prefix }
    }

    /// The cookie-signing key, read-only.
    pub fn cookie_key(&self) -> (r: &Vec<u8>)
        ensures
            r@ == self.cookie_key@,
    {
        &self.cookie_key
    }
}

} // verus!
