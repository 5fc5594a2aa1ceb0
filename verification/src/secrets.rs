//! Secret material: loaded and validated once at process start, shared
//! read-only by every concurrently handled request, never regenerated
//! at runtime. Short or absent material aborts startup; there is no
//! silent fallback to a weak default.

use vstd::prelude::*;

use crate::errors::ConfigError;

verus! {

/// The session-signing secret must be at least this many bytes.
pub const MIN_JWT_SECRET_BYTES: usize = 32;

/// The cookie-signing key must be at least this many bytes.
pub const MIN_COOKIE_SECRET_BYTES: usize = 64;

/// The signing secret for session tokens and the separate signing key
/// for cookie integrity. Constructed only by `load`, so both minimum
/// lengths hold of every value of this type.
pub struct SecretMaterial {
    pub session_secret: Vec<u8>,
    pub cookie_key: Vec<u8>,
}

/// What `load` returns for given inputs: the first violation in order —
/// session secret absent, session secret short, cookie key absent,
/// cookie key short — or the material itself.
pub open spec fn spec_load(jwt: Option<Seq<u8>>, cookie: Option<Seq<u8>>) -> Result<
    (Seq<u8>, Seq<u8>),
    ConfigError,
> {
    match jwt {
        None => Err(ConfigError::MissingJwtSecret),
        Some(j) => if j.len() < MIN_JWT_SECRET_BYTES {
            Err(ConfigError::JwtSecretTooShort)
        } else {
            match cookie {
                None => Err(ConfigError::MissingCookieSecret),
                Some(k) => if k.len() < MIN_COOKIE_SECRET_BYTES {
                    Err(ConfigError::CookieSecretTooShort)
                } else {
                    Ok((j, k))
                },
            }
        },
    }
}

/// The view of an optional byte string.
pub open spec fn opt_bytes_view(o: Option<Vec<u8>>) -> Option<Seq<u8>> {
    match o {
        Some(v) => Some(v@),
        None => None,
    }
}

impl SecretMaterial {
    /// Validates and fixes the secret material for the process: both
    /// secrets must be present and at least their minimum length, or
    /// boot fails with the exact violation. In particular, an absent or
    /// shorter-than-32-byte session secret never yields material.
    pub fn load(jwt_secret: Option<Vec<u8>>, cookie_secret: Option<Vec<u8>>) -> (r: Result<
        SecretMaterial,
        ConfigError,
    >)
        ensures
            (r matches Ok(m) && spec_load(opt_bytes_view(jwt_secret), opt_bytes_view(cookie_secret))
                matches Ok(p) && m.session_secret@ == p.0 && m.cookie_key@ == p.1) || (r
                matches Err(e) && spec_load(
                opt_bytes_view(jwt_secret),
                opt_bytes_view(cookie_secret),
            ) == Err::<(Seq<u8>, Seq<u8>), ConfigError>(e)),
            r matches Ok(m) ==> m.session_secret@.len() >= MIN_JWT_SECRET_BYTES
                && m.cookie_key@.len() >= MIN_COOKIE_SECRET_BYTES,
    {
        let jwt = match jwt_secret {
            None => {
                return Err(ConfigError::MissingJwtSecret);
            },
            Some(j) => j,
        };
        if jwt.len() < MIN_JWT_SECRET_BYTES {
            return Err(ConfigError::JwtSecretTooShort);
        }
        let cookie = match cookie_secret {
            None => {
                return Err(ConfigError::MissingCookieSecret);
            },
            Some(k) => k,
        };
        if cookie.len() < MIN_COOKIE_SECRET_BYTES {
            return Err(ConfigError::CookieSecretTooShort);
        }
        Ok(SecretMaterial { session_secret: jwt, cookie_key: cookie })
    }

    /// The signing secret for session tokens.
    pub fn session_secret(&self) -> (r: &Vec<u8>)
        ensures
            r@ == self.session_secret@,
    {
        &self.session_secret
    }

    /// The signing key for cookie integrity.
    pub fn cookie_key(&self) -> (r: &Vec<u8>)
        ensures
            r@ == self.cookie_key@,
    {
        &self.cookie_key
    }
}

} // verus!
