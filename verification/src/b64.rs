//! Base64url (unpadded) encoding of token payload segments, behind
//! trusted wrappers around the `base64` crate.

use base64::Engine;
use vstd::prelude::*;

verus! {

/// Whether `c` belongs to the unpadded base64url alphabet.
pub open spec fn is_b64url_char(c: char) -> bool {
    ||| 'A' <= c <= 'Z'
    ||| 'a' <= c <= 'z'
    ||| '0' <= c <= '9'
    ||| c == '-'
    ||| c == '_'
}

/// Every character of `s` belongs to the unpadded base64url alphabet.
/// Such a string is ASCII and contains no dot.
pub open spec fn all_b64url_chars(s: Seq<char>) -> bool {
    forall|i: int| 0 <= i < s.len() ==> is_b64url_char(#[trigger] s[i])
}

/// The unpadded base64url encoding of the UTF-8 bytes of a string, as
/// the `base64` crate computes it. The result is a function of the
/// characters alone.
pub uninterp spec fn b64_str_of(s: Seq<char>) -> Seq<char>;

/// Relies on base64's `URL_SAFE_NO_PAD` engine: `encode` is a pure
/// function of the input bytes, and its output uses only the URL-safe
/// alphabet (`A`-`Z`, `a`-`z`, `0`-`9`, `-`, `_`) without padding.
#[verifier::external_body]
pub(crate) fn b64url_encode_str(s: &str) -> (r: String)
    ensures
        r@ == b64_str_of(s@),
        all_b64url_chars(r@),
{
    base64::engine::general_purpose::URL_SAFE_NO_PAD.encode(s.as_bytes())
}

/// Relies on base64's `URL_SAFE_NO_PAD` engine: `decode` accepts exactly
/// the canonical unpadded encodings (the engine is built with
/// `DecodePaddingMode::RequireNone` and disallows trailing bits), so a
/// successful decode inverts `encode`; UTF-8 decoding of the result then
/// inverts the byte encoding of the input string.
#[verifier::external_body]
pub(crate) fn b64url_decode_str(s: &str) -> (r: Option<String>)
    ensures
        r matches Some(t) ==> s@ == b64_str_of(t@),
        r is None ==> forall|t: Seq<char>| s@ != b64_str_of(t),
        r matches Some(t) ==> forall|u: Seq<char>| s@ == b64_str_of(u) ==> u == t@,
{
    match base64::engine::general_purpose::URL_SAFE_NO_PAD.decode(s.as_bytes()) {
        Ok(bytes) => String::from_utf8(bytes).ok(),
        Err(_) => None,
    }
}

} // verus!
