//! The symmetric MAC behind session-token signatures, and the wall
//! clock, behind trusted wrappers around `jsonwebtoken` and `chrono`.

use vstd::prelude::*;

verus! {

/// The base64url-encoded HMAC-SHA-512 tag of a message under a secret,
/// as `jsonwebtoken::crypto::sign` computes it. The result is a function
/// of the secret and the message alone.
pub uninterp spec fn hs512_b64_of(secret: Seq<u8>, message: Seq<char>) -> Seq<char>;

/// Relies on `jsonwebtoken::crypto::sign` with `Algorithm::HS512`: the
/// tag is a deterministic HMAC over the message bytes under the secret,
/// returned base64url-encoded without padding. For an HMAC key built by
/// `EncodingKey::from_secret`, the signer accepts any key length and
/// signing never fails, so the call always returns a value.
#[verifier::external_body]
pub(crate) fn hs512_sign_b64(secret: &[u8], message: &str) -> (r: String)
    ensures
        r@ == hs512_b64_of(secret@, message@),
        crate::b64::all_b64url_chars(r@),
{
    jsonwebtoken::crypto::sign(
        message.as_bytes(),
        &jsonwebtoken::EncodingKey::from_secret(secret),
        jsonwebtoken::Algorithm::HS512,
    ).expect("HMAC signing is infallible")
}

/// Relies on `chrono::Utc::now`: the result depends on the wall clock,
/// so nothing relates two calls; chrono documents that a `DateTime<Utc>`
/// lies between years -262144 and 262142, so the epoch-second value is
/// far inside `i64` range.
#[verifier::external_body]
pub(crate) fn now_unix_seconds() -> (r: i64)
    ensures
        -9_000_000_000_000 < r < 9_000_000_000_000,
{
    chrono::Utc::now().timestamp()
}

} // verus!
