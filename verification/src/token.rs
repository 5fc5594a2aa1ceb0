//! Session-token codec: claims are framed as five dot-separated ASCII
//! segments (base64url subject, base64url organization, role name,
//! issue time, expiry time) followed by a dot and an HMAC-SHA-512 tag
//! over the payload. Verification recomputes the tag before reading any
//! claim field, and enforces the validity window with no grace period.

use vstd::prelude::*;

use crate::b64::{all_b64url_chars, b64_str_of, b64url_decode_str, b64url_encode_str};
use crate::crypto::{hs512_b64_of, hs512_sign_b64, now_unix_seconds};
use crate::errors::AuthError;
use crate::roles::{role_from_name, spec_role_name, Role};
use crate::strutil::{
    find_char_from, parse_dec_i64, push_char, push_dec_i64, spec_dec_int,
};

verus! {

/// Seconds in the fixed 24-hour validity window of a session token.
pub const TOKEN_VALIDITY_SECONDS: i64 = 86400;

/// The signed payload of a session token: subject, organization scope,
/// role, and the validity window in epoch seconds.
#[derive(Clone, Debug, PartialEq, Eq)]
pub struct Claims {
    pub sub: String,
    pub org_id: String,
    pub role: Role,
    pub iat: i64,
    pub exp: i64,
}

/// The mathematical content of a `Claims` value.
pub ghost struct ClaimsView {
    pub sub: Seq<char>,
    pub org_id: Seq<char>,
    pub role: Role,
    pub iat: int,
    pub exp: int,
}

impl View for Claims {
    type V = ClaimsView;

    open spec fn view(&self) -> ClaimsView {
        ClaimsView {
            sub: self.sub@,
            org_id: self.org_id@,
            role: self.role,
            iat: self.iat as int,
            exp: self.exp as int,
        }
    }
}

/// Claims are well-formed when the organization scope is non-empty and
/// the validity window is monotone within signed 64-bit epoch seconds.
pub open spec fn wf_claims(c: ClaimsView) -> bool {
    &&& c.org_id.len() > 0
    &&& i64::MIN <= c.iat
    &&& c.iat < c.exp
    &&& c.exp <= i64::MAX
}

/// The dot-separated signing input of a token: base64url subject,
/// base64url organization, role name, and the two decimal timestamps.
pub open spec fn payload_of(c: ClaimsView) -> Seq<char> {
    b64_str_of(c.sub) + seq!['.'] + b64_str_of(c.org_id) + seq!['.'] + spec_role_name(c.role)
        + seq!['.'] + spec_dec_int(c.iat) + seq!['.'] + spec_dec_int(c.exp)
}

/// The full encoded token: the payload, a dot, and the payload's
/// HMAC-SHA-512 tag under the session secret.
pub open spec fn token_of(secret: Seq<u8>, c: ClaimsView) -> Seq<char> {
    payload_of(c) + seq!['.'] + hs512_b64_of(secret, payload_of(c))
}

/// The base64url encoder emits only alphabet characters; this records
/// that fact of the claims' encoded fields, witnessed at each call of
/// the encoder, for use where no call occurs.
pub open spec fn encodable(c: ClaimsView) -> bool {
    &&& all_b64url_chars(b64_str_of(c.sub))
    &&& all_b64url_chars(b64_str_of(c.org_id))
}

/// As `encodable`, for the token's tag under a given secret.
pub open spec fn signable(secret: Seq<u8>, c: ClaimsView) -> bool {
    all_b64url_chars(hs512_b64_of(secret, payload_of(c)))
}

impl Claims {
    /// Builds the claims for a fresh session issued at `iat`: the
    /// expiry is exactly one validity window later.
    pub fn with_issued_at(sub: String, org_id: String, role: Role, iat: i64) -> (c: Claims)
        requires
            org_id@.len() > 0,
            iat <= i64::MAX - TOKEN_VALIDITY_SECONDS,
        ensures
            c@.sub == sub@,
            c@.org_id == org_id@,
            c@.role == role,
            c@.iat == iat as int,
            c@.exp == iat + TOKEN_VALIDITY_SECONDS,
            wf_claims(c@),
    {
        Claims { sub, org_id, role, iat, exp: iat + TOKEN_VALIDITY_SECONDS }
    }

    /// Builds the claims for a session issued now: whatever the clock
    /// returned, the expiry is one validity window after the issue time.
    pub fn new(sub: String, org_id: String, role: Role) -> (c: Claims)
        requires
            org_id@.len() > 0,
        ensures
            c@.sub == sub@,
            c@.org_id == org_id@,
            c@.role == role,
            c@.exp == c@.iat + TOKEN_VALIDITY_SECONDS,
            -9_000_000_000_000 < c@.iat < 9_000_000_000_000,
            wf_claims(c@),
    {
        let now = now_unix_seconds();
        Claims::with_issued_at(sub, org_id, role, now)
    }

    /// Whether these claims carry the role of that wire name.
    pub fn has_role(&self, role_name: &str) -> (r: bool)
        ensures
            r == (role_name@ == spec_role_name(self@.role)),
    {
        match role_from_name(role_name) {
            Some(role) => {
                proof {
                    crate::roles::lemma_role_name_injective(role, self.role);
                }
                role == self.role
            },
            None => false,
        }
    }

    /// Encodes and signs these claims under the session secret.
    pub fn encode(&self, secret: &[u8]) -> (t: String)
        requires
            wf_claims(self@),
        ensures
            t@ == token_of(secret@, self@),
            encodable(self@),
            signable(secret@, self@),
    {
        let mut payload = b64url_encode_str(self.sub.as_str());
        push_char(&mut payload, '.');
        let org_seg = b64url_encode_str(self.org_id.as_str());
        payload.append(org_seg.as_str());
        push_char(&mut payload, '.');
        payload.append(self.role.as_str());
        push_char(&mut payload, '.');
        push_dec_i64(&mut payload, self.iat);
        push_char(&mut payload, '.');
        push_dec_i64(&mut payload, self.exp);
        assert(payload@ =~= payload_of(self@));
        let tag = hs512_sign_b64(secret, payload.as_str());
        push_char(&mut payload, '.');
        payload.append(tag.as_str());
        assert(payload@ =~= token_of(secret@, self@));
        payload
    }
}

/// Issues a token for the given subject, organization and role as of
/// `iat`: the claims and their signed encoding.
pub fn issue_at(secret: &[u8], subject: String, org_id: String, role: Role, iat: i64) -> (r: (
    Claims,
    String,
))
    requires
        org_id@.len() > 0,
        iat <= i64::MAX - TOKEN_VALIDITY_SECONDS,
    ensures
        r.0@.sub == subject@,
        r.0@.org_id == org_id@,
        r.0@.role == role,
        r.0@.iat == iat as int,
        r.0@.exp == iat + TOKEN_VALIDITY_SECONDS,
        wf_claims(r.0@),
        r.1@ == token_of(secret@, r.0@),
        encodable(r.0@),
        signable(secret@, r.0@),
{
    let claims = Claims::with_issued_at(subject, org_id, role, iat);
    let token = claims.encode(secret);
    (claims, token)
}

/// The token decomposes as the signed encoding of the claims `c`: this
/// is what `verify_token` accepts when the window is still open.
pub open spec fn is_signed_token(secret: Seq<u8>, t: Seq<char>, c: ClaimsView) -> bool {
    &&& wf_claims(c)
    &&& encodable(c)
    &&& signable(secret, c)
    &&& t == token_of(secret, c)
}

/// The token carries the well-formed payload of `c` but a signature
/// segment that is not the payload's tag under the secret: exactly the
/// shape a tampered signature produces.
pub open spec fn is_tampered_token(secret: Seq<u8>, t: Seq<char>, c: ClaimsView, sig2: Seq<char>) -> bool {
    &&& wf_claims(c)
    &&& encodable(c)
    &&& vstd::utf8::is_ascii_chars(sig2)
    &&& t == payload_of(c) + seq!['.'] + sig2
    &&& sig2 != hs512_b64_of(secret, payload_of(c))
}

/// A role's wire name is ASCII and dot-free.
proof fn lemma_role_name_chars(role: Role)
    ensures
        vstd::utf8::is_ascii_chars(spec_role_name(role)),
        forall|i: int| 0 <= i < spec_role_name(role).len() ==> spec_role_name(role)[i] != '.',
{
    reveal_strlit("admin");
    reveal_strlit("viewer");
}

/// A canonical decimal is ASCII and dot-free.
proof fn lemma_dec_chars(n: i64)
    ensures
        vstd::utf8::is_ascii_chars(spec_dec_int(n as int)),
        forall|i: int| 0 <= i < spec_dec_int(n as int).len() ==> spec_dec_int(n as int)[i] != '.',
{
    crate::strutil::lemma_dec_int_chars(n);
    let s = spec_dec_int(n as int);
    assert forall|i: int| 0 <= i < s.len() implies '\0' <= #[trigger] s[i] <= '\u{7f}' && s[i] != '.' by {
        assert(crate::strutil::is_digit(s[i]) || s[i] == '-');
    }
}

/// A base64url segment is ASCII and dot-free.
proof fn lemma_b64_chars(s: Seq<char>)
    requires
        all_b64url_chars(s),
    ensures
        vstd::utf8::is_ascii_chars(s),
        forall|i: int| 0 <= i < s.len() ==> s[i] != '.',
{
    assert forall|i: int| 0 <= i < s.len() implies '\0' <= #[trigger] s[i] <= '\u{7f}' && s[i] != '.' by {
        assert(crate::b64::is_b64url_char(s[i]));
    }
}

/// The payload of encodable well-formed claims is ASCII.
proof fn lemma_payload_ascii(c: ClaimsView)
    requires
        wf_claims(c),
        encodable(c),
    ensures
        vstd::utf8::is_ascii_chars(payload_of(c)),
{
    lemma_b64_chars(b64_str_of(c.sub));
    lemma_b64_chars(b64_str_of(c.org_id));
    lemma_role_name_chars(c.role);
    lemma_dec_chars(c.iat as i64);
    lemma_dec_chars(c.exp as i64);
    let a = b64_str_of(c.sub);
    let b = b64_str_of(c.org_id);
    let r = spec_role_name(c.role);
    let d = spec_dec_int(c.iat);
    let e = spec_dec_int(c.exp);
    let p = payload_of(c);
    assert(p =~= a + seq!['.'] + b + seq!['.'] + r + seq!['.'] + d + seq!['.'] + e);
    assert forall|i: int| 0 <= i < p.len() implies '\0' <= #[trigger] p[i] <= '\u{7f}' by {
        let la = a.len() as int;
        let lb = b.len() as int;
        let lr = r.len() as int;
        let ld = d.len() as int;
        if i < la {
            assert(p[i] == a[i]);
        } else if i == la {
            assert(p[i] == '.');
        } else if i < la + 1 + lb {
            assert(p[i] == b[i - la - 1]);
        } else if i == la + 1 + lb {
            assert(p[i] == '.');
        } else if i < la + 1 + lb + 1 + lr {
            assert(p[i] == r[i - la - 1 - lb - 1]);
        } else if i == la + 1 + lb + 1 + lr {
            assert(p[i] == '.');
        } else if i < la + 1 + lb + 1 + lr + 1 + ld {
            assert(p[i] == d[i - la - 1 - lb - 1 - lr - 1]);
        } else if i == la + 1 + lb + 1 + lr + 1 + ld {
            assert(p[i] == '.');
        } else {
            assert(p[i] == e[i - la - 1 - lb - 1 - lr - 1 - ld - 1]);
        }
    }
}

/// Aligns a decomposition `payload_of(c) + '.' + sig2` of the token with
/// the five first-dot positions its parser found: each dot falls exactly
/// on a segment boundary, so the parsed segments are the claims' encoded
/// fields and the remainder is `sig2`.
#[verifier::rlimit(100)]
#[verifier::spinoff_prover]
proof fn lemma_align(
    t: Seq<char>,
    c: ClaimsView,
    sig2: Seq<char>,
    p0: int,
    p1: int,
    p2: int,
    p3: int,
    p4: int,
)
    requires
        wf_claims(c),
        encodable(c),
        t == payload_of(c) + seq!['.'] + sig2,
        0 <= p0 < p1 < p2 < p3 < p4 < t.len(),
        t[p0] == '.' && t[p1] == '.' && t[p2] == '.' && t[p3] == '.' && t[p4] == '.',
        forall|j: int| 0 <= j < p0 ==> t[j] != '.',
        forall|j: int| p0 < j < p1 ==> t[j] != '.',
        forall|j: int| p1 < j < p2 ==> t[j] != '.',
        forall|j: int| p2 < j < p3 ==> t[j] != '.',
        forall|j: int| p3 < j < p4 ==> t[j] != '.',
    ensures
        t.subrange(0, p0) == b64_str_of(c.sub),
        t.subrange(p0 + 1, p1) == b64_str_of(c.org_id),
        t.subrange(p1 + 1, p2) == spec_role_name(c.role),
        t.subrange(p2 + 1, p3) == spec_dec_int(c.iat),
        t.subrange(p3 + 1, p4) == spec_dec_int(c.exp),
        p4 == payload_of(c).len(),
        t.subrange(0, p4) == payload_of(c),
        t.subrange(p4 + 1, t.len() as int) == sig2,
{
    let a = b64_str_of(c.sub);
    let b = b64_str_of(c.org_id);
    let r = spec_role_name(c.role);
    let d = spec_dec_int(c.iat);
    let e = spec_dec_int(c.exp);
    lemma_b64_chars(a);
    lemma_b64_chars(b);
    lemma_role_name_chars(c.role);
    lemma_dec_chars(c.iat as i64);
    lemma_dec_chars(c.exp as i64);
    let rest1 = b + seq!['.'] + r + seq!['.'] + d + seq!['.'] + e + seq!['.'] + sig2;
    let rest2 = r + seq!['.'] + d + seq!['.'] + e + seq!['.'] + sig2;
    let rest3 = d + seq!['.'] + e + seq!['.'] + sig2;
    let rest4 = e + seq!['.'] + sig2;
    assert(t.subrange(0, t.len() as int) =~= t);
    assert(t =~= a + seq!['.'] + rest1);
    crate::strutil::lemma_peel_segment(t, 0, a, rest1, p0, '.');
    assert(rest1 =~= b + seq!['.'] + rest2);
    crate::strutil::lemma_peel_segment(t, p0 + 1, b, rest2, p1, '.');
    assert(rest2 =~= r + seq!['.'] + rest3);
    crate::strutil::lemma_peel_segment(t, p1 + 1, r, rest3, p2, '.');
    assert(rest3 =~= d + seq!['.'] + rest4);
    crate::strutil::lemma_peel_segment(t, p2 + 1, d, rest4, p3, '.');
    assert(rest4 =~= e + seq!['.'] + sig2);
    crate::strutil::lemma_peel_segment(t, p3 + 1, e, sig2, p4, '.');
    assert(p4 == payload_of(c).len());
    assert(t.subrange(0, p4) =~= payload_of(c));
    assert(t.subrange(p4 + 1, t.len() as int) =~= sig2);
}

/// The token decomposes as the well-formed payload of `c` followed by a
/// dot and some signature segment.
pub open spec fn decomposes(t: Seq<char>, c: ClaimsView, sig2: Seq<char>) -> bool {
    &&& wf_claims(c)
    &&& encodable(c)
    &&& t == payload_of(c) + seq!['.'] + sig2
}

/// The five dot positions that delimit a token's payload segments: each
/// is the first dot after the one before.
pub open spec fn dot_split(t: Seq<char>, p0: int, p1: int, p2: int, p3: int, p4: int) -> bool {
    &&& 0 <= p0 < p1 < p2 < p3 < p4 < t.len()
    &&& t[p0] == '.' && t[p1] == '.' && t[p2] == '.' && t[p3] == '.' && t[p4] == '.'
    &&& forall|j: int| 0 <= j < p0 ==> t[j] != '.'
    &&& forall|j: int| p0 < j < p1 ==> t[j] != '.'
    &&& forall|j: int| p1 < j < p2 ==> t[j] != '.'
    &&& forall|j: int| p2 < j < p3 ==> t[j] != '.'
    &&& forall|j: int| p3 < j < p4 ==> t[j] != '.'
}

/// With the first dot found, a dot follows the organization segment.
#[verifier::rlimit(100)]
#[verifier::spinoff_prover]
proof fn lemma_dot_after_1(t: Seq<char>, c: ClaimsView, sig2: Seq<char>, p0: int)
    requires
        decomposes(t, c, sig2),
        0 <= p0 < t.len(),
        t[p0] == '.',
        forall|j: int| 0 <= j < p0 ==> t[j] != '.',
    ensures
        p0 + 1 + b64_str_of(c.org_id).len() < t.len(),
        t[p0 + 1 + b64_str_of(c.org_id).len()] == '.',
{
    let a = b64_str_of(c.sub);
    let b = b64_str_of(c.org_id);
    let rest1 = b + seq!['.'] + spec_role_name(c.role) + seq!['.'] + spec_dec_int(c.iat)
        + seq!['.'] + spec_dec_int(c.exp) + seq!['.'] + sig2;
    lemma_b64_chars(a);
    assert(t.subrange(0, t.len() as int) =~= t);
    assert(t =~= a + seq!['.'] + rest1);
    crate::strutil::lemma_peel_segment(t, 0, a, rest1, p0, '.');
    assert(t[p0 + 1 + b.len()] == '.') by {
        assert(t.subrange(p0 + 1, t.len() as int)[b.len() as int] == t[p0 + 1 + b.len()]);
    }
}

/// With two dots found, a dot follows the role segment.
#[verifier::rlimit(100)]
#[verifier::spinoff_prover]
proof fn lemma_dot_after_2(t: Seq<char>, c: ClaimsView, sig2: Seq<char>, p0: int, p1: int)
    requires
        decomposes(t, c, sig2),
        0 <= p0 < p1 < t.len(),
        t[p0] == '.',
        t[p1] == '.',
        forall|j: int| 0 <= j < p0 ==> t[j] != '.',
        forall|j: int| p0 < j < p1 ==> t[j] != '.',
    ensures
        p1 + 1 + spec_role_name(c.role).len() < t.len(),
        t[p1 + 1 + spec_role_name(c.role).len()] == '.',
{
    let a = b64_str_of(c.sub);
    let b = b64_str_of(c.org_id);
    let rr = spec_role_name(c.role);
    let rest2 = rr + seq!['.'] + spec_dec_int(c.iat) + seq!['.'] + spec_dec_int(c.exp) + seq!['.']
        + sig2;
    let rest1 = b + seq!['.'] + rest2;
    lemma_b64_chars(a);
    lemma_b64_chars(b);
    assert(t.subrange(0, t.len() as int) =~= t);
    assert(t =~= a + seq!['.'] + rest1);
    crate::strutil::lemma_peel_segment(t, 0, a, rest1, p0, '.');
    assert(rest1 =~= b + seq!['.'] + rest2);
    crate::strutil::lemma_peel_segment(t, p0 + 1, b, rest2, p1, '.');
    assert(t[p1 + 1 + rr.len()] == '.') by {
        assert(t.subrange(p1 + 1, t.len() as int)[rr.len() as int] == t[p1 + 1 + rr.len()]);
    }
}

/// With three dots found, a dot follows the issue-time segment.
#[verifier::rlimit(100)]
#[verifier::spinoff_prover]
proof fn lemma_dot_after_3(t: Seq<char>, c: ClaimsView, sig2: Seq<char>, p0: int, p1: int, p2: int)
    requires
        decomposes(t, c, sig2),
        0 <= p0 < p1 < p2 < t.len(),
        t[p0] == '.',
        t[p1] == '.',
        t[p2] == '.',
        forall|j: int| 0 <= j < p0 ==> t[j] != '.',
        forall|j: int| p0 < j < p1 ==> t[j] != '.',
        forall|j: int| p1 < j < p2 ==> t[j] != '.',
    ensures
        p2 + 1 + spec_dec_int(c.iat).len() < t.len(),
        t[p2 + 1 + spec_dec_int(c.iat).len()] == '.',
{
    let a = b64_str_of(c.sub);
    let b = b64_str_of(c.org_id);
    let rr = spec_role_name(c.role);
    let dd = spec_dec_int(c.iat);
    let rest3 = dd + seq!['.'] + spec_dec_int(c.exp) + seq!['.'] + sig2;
    let rest2 = rr + seq!['.'] + rest3;
    let rest1 = b + seq!['.'] + rest2;
    lemma_b64_chars(a);
    lemma_b64_chars(b);
    lemma_role_name_chars(c.role);
    assert(t.subrange(0, t.len() as int) =~= t);
    assert(t =~= a + seq!['.'] + rest1);
    crate::strutil::lemma_peel_segment(t, 0, a, rest1, p0, '.');
    assert(rest1 =~= b + seq!['.'] + rest2);
    crate::strutil::lemma_peel_segment(t, p0 + 1, b, rest2, p1, '.');
    assert(rest2 =~= rr + seq!['.'] + rest3);
    crate::strutil::lemma_peel_segment(t, p1 + 1, rr, rest3, p2, '.');
    assert(t[p2 + 1 + dd.len()] == '.') by {
        assert(t.subrange(p2 + 1, t.len() as int)[dd.len() as int] == t[p2 + 1 + dd.len()]);
    }
}

/// With four dots found, a dot follows the expiry segment.
#[verifier::rlimit(100)]
#[verifier::spinoff_prover]
proof fn lemma_dot_after_4(
    t: Seq<char>,
    c: ClaimsView,
    sig2: Seq<char>,
    p0: int,
    p1: int,
    p2: int,
    p3: int,
)
    requires
        decomposes(t, c, sig2),
        0 <= p0 < p1 < p2 < p3 < t.len(),
        t[p0] == '.',
        t[p1] == '.',
        t[p2] == '.',
        t[p3] == '.',
        forall|j: int| 0 <= j < p0 ==> t[j] != '.',
        forall|j: int| p0 < j < p1 ==> t[j] != '.',
        forall|j: int| p1 < j < p2 ==> t[j] != '.',
        forall|j: int| p2 < j < p3 ==> t[j] != '.',
    ensures
        p3 + 1 + spec_dec_int(c.exp).len() < t.len(),
        t[p3 + 1 + spec_dec_int(c.exp).len()] == '.',
{
    let a = b64_str_of(c.sub);
    let b = b64_str_of(c.org_id);
    let rr = spec_role_name(c.role);
    let dd = spec_dec_int(c.iat);
    let ee = spec_dec_int(c.exp);
    let rest4 = ee + seq!['.'] + sig2;
    let rest3 = dd + seq!['.'] + rest4;
    let rest2 = rr + seq!['.'] + rest3;
    let rest1 = b + seq!['.'] + rest2;
    lemma_b64_chars(a);
    lemma_b64_chars(b);
    lemma_role_name_chars(c.role);
    lemma_dec_chars(c.iat as i64);
    assert(t.subrange(0, t.len() as int) =~= t);
    assert(t =~= a + seq!['.'] + rest1);
    crate::strutil::lemma_peel_segment(t, 0, a, rest1, p0, '.');
    assert(rest1 =~= b + seq!['.'] + rest2);
    crate::strutil::lemma_peel_segment(t, p0 + 1, b, rest2, p1, '.');
    assert(rest2 =~= rr + seq!['.'] + rest3);
    crate::strutil::lemma_peel_segment(t, p1 + 1, rr, rest3, p2, '.');
    assert(rest3 =~= dd + seq!['.'] + rest4);
    crate::strutil::lemma_peel_segment(t, p2 + 1, dd, rest4, p3, '.');
    assert(t[p3 + 1 + ee.len()] == '.') by {
        assert(t.subrange(p3 + 1, t.len() as int)[ee.len() as int] == t[p3 + 1 + ee.len()]);
    }
}

/// Finds the five dots that delimit a token's payload segments; when
/// fewer exist, the token is not the framing of any claims.
#[verifier::rlimit(100)]
fn split_token(token: &str) -> (r: Option<(usize, usize, usize, usize, usize)>)
    requires
        vstd::string::is_ascii(token),
        token@.len() <= usize::MAX,
    ensures
        r matches Some(p) ==> dot_split(
            token@,
            p.0 as int,
            p.1 as int,
            p.2 as int,
            p.3 as int,
            p.4 as int,
        ),
        r is None ==> forall|c: ClaimsView, sig2: Seq<char>| !decomposes(token@, c, sig2),
{
    let ghost t = token@;
    let p0 = match find_char_from(token, 0, '.') {
        Some(i) => i,
        None => {
            proof {
                assert forall|c: ClaimsView, sig2: Seq<char>| !decomposes(t, c, sig2) by {
                    if decomposes(t, c, sig2) {
                        lemma_b64_chars(b64_str_of(c.sub));
                        assert(t[b64_str_of(c.sub).len() as int] == '.');
                    }
                }
            }
            return None;
        },
    };
    let p1 = match find_char_from(token, p0 + 1, '.') {
        Some(i) => i,
        None => {
            proof {
                assert forall|c: ClaimsView, sig2: Seq<char>| !decomposes(t, c, sig2) by {
                    if decomposes(t, c, sig2) {
                        lemma_dot_after_1(t, c, sig2, p0 as int);
                    }
                }
            }
            return None;
        },
    };
    let p2 = match find_char_from(token, p1 + 1, '.') {
        Some(i) => i,
        None => {
            proof {
                assert forall|c: ClaimsView, sig2: Seq<char>| !decomposes(t, c, sig2) by {
                    if decomposes(t, c, sig2) {
                        lemma_dot_after_2(t, c, sig2, p0 as int, p1 as int);
                    }
                }
            }
            return None;
        },
    };
    let p3 = match find_char_from(token, p2 + 1, '.') {
        Some(i) => i,
        None => {
            proof {
                assert forall|c: ClaimsView, sig2: Seq<char>| !decomposes(t, c, sig2) by {
                    if decomposes(t, c, sig2) {
                        lemma_dot_after_3(t, c, sig2, p0 as int, p1 as int, p2 as int);
                    }
                }
            }
            return None;
        },
    };
    let p4 = match find_char_from(token, p3 + 1, '.') {
        Some(i) => i,
        None => {
            proof {
                assert forall|c: ClaimsView, sig2: Seq<char>| !decomposes(t, c, sig2) by {
                    if decomposes(t, c, sig2) {
                        lemma_dot_after_4(t, c, sig2, p0 as int, p1 as int, p2 as int, p3 as int);
                    }
                }
            }
            return None;
        },
    };
    Some((p0, p1, p2, p3, p4))
}

/// Decodes and checks a presented session token: recomputes the
/// payload's tag under the secret and compares it before reading any
/// claim field, then validates the claims' shape, then the validity
/// window against `now`, with no grace period. Internally the reasons
/// for rejection stay distinct; every one surfaces as the same status.
///
/// The contract pins three laws of the codec. A token issued under the
/// same secret and presented while its window is open verifies to
/// exactly the claims it was issued for (`issue` ensures precisely
/// `is_signed_token` of its result). Once `now` reaches the expiry, the
/// same token is rejected as expired. And a token that carries a
/// well-formed payload under any signature segment other than the
/// payload's own tag — a token with any byte of its signature changed —
/// is rejected as a signature mismatch.
#[verifier::rlimit(100)]
pub fn verify_token(secret: &[u8], token: &str, now: i64) -> (r: Result<Claims, AuthError>)
    ensures
        r matches Ok(c) ==> wf_claims(c@) && token@ == token_of(secret@, c@) && now < c@.exp,
        forall|c: ClaimsView|
            is_signed_token(secret@, token@, c) && now < c.exp ==> (r matches Ok(d) && d@ == c),
        forall|c: ClaimsView|
            is_signed_token(secret@, token@, c) && now >= c.exp ==> r == Err::<
                Claims,
                AuthError,
            >(AuthError::ExpiredToken),
        forall|c: ClaimsView, sig2: Seq<char>|
            is_tampered_token(secret@, token@, c, sig2) ==> r == Err::<Claims, AuthError>(
                AuthError::SignatureInvalid,
            ),
        r is Err ==> (r->Err_0 == AuthError::MalformedCredential || r->Err_0
            == AuthError::SignatureInvalid || r->Err_0 == AuthError::ExpiredToken),
{
    broadcast use vstd::string::is_ascii_spec_bytes;

    let ghost t = token@;
    if !token.is_ascii() {
        proof {
            assert forall|c: ClaimsView, sig2: Seq<char>|
                decomposes(t, c, sig2) && vstd::utf8::is_ascii_chars(sig2) implies false by {
                lemma_payload_ascii(c);
                let p = payload_of(c);
                assert forall|i: int| 0 <= i < t.len() implies '\0' <= #[trigger] t[i]
                    <= '\u{7f}' by {
                    if i < p.len() {
                        assert(t[i] == p[i]);
                    } else if i == p.len() {
                        assert(t[i] == '.');
                    } else {
                        assert(t[i] == sig2[i - p.len() - 1]);
                    }
                }
                assert(vstd::utf8::is_ascii_chars(t));
            }
            assert forall|c: ClaimsView| is_signed_token(secret@, t, c) implies false by {
                lemma_b64_chars(hs512_b64_of(secret@, payload_of(c)));
                assert(decomposes(t, c, hs512_b64_of(secret@, payload_of(c))));
            }
            assert forall|c: ClaimsView, sig2: Seq<char>|
                is_tampered_token(secret@, t, c, sig2) implies false by {
                assert(decomposes(t, c, sig2) && vstd::utf8::is_ascii_chars(sig2));
            }
        }
        return Err(AuthError::MalformedCredential);
    }
    let n: usize = token.unicode_len();
    proof {
        assert(n as nat == t.len());
    }
    let (p0, p1, p2, p3, p4) = match split_token(token) {
        Some(p) => p,
        None => {
            proof {
                assert forall|c: ClaimsView| is_signed_token(secret@, t, c) implies false by {
                    assert(!decomposes(t, c, hs512_b64_of(secret@, payload_of(c))));
                }
                assert forall|c: ClaimsView, sig2: Seq<char>|
                    is_tampered_token(secret@, t, c, sig2) implies false by {
                    assert(!decomposes(t, c, sig2));
                }
            }
            return Err(AuthError::MalformedCredential);
        },
    };
    proof {
        assert forall|c: ClaimsView, sig2: Seq<char>| #![trigger decomposes(t, c, sig2)]
            decomposes(t, c, sig2) implies (t.subrange(0, p0 as int) == b64_str_of(c.sub)
            && t.subrange(p0 as int + 1, p1 as int) == b64_str_of(c.org_id)
            && t.subrange(p1 as int + 1, p2 as int) == spec_role_name(c.role)
            && t.subrange(p2 as int + 1, p3 as int) == spec_dec_int(c.iat)
            && t.subrange(p3 as int + 1, p4 as int) == spec_dec_int(c.exp)
            && p4 as int == payload_of(c).len()
            && t.subrange(0, p4 as int) == payload_of(c)
            && t.subrange(p4 as int + 1, t.len() as int) == sig2) by {
            lemma_align(t, c, sig2, p0 as int, p1 as int, p2 as int, p3 as int, p4 as int);
        }
    }
    let payload = token.substring_ascii(0, p4);
    let sig = token.substring_ascii(p4 + 1, n);
    let expected = hs512_sign_b64(secret, payload);
    let sig_string = String::from_str(sig);
    let sig_ok = sig_string == expected;
    if !sig_ok {
        proof {
            assert forall|c: ClaimsView| is_signed_token(secret@, t, c) implies false by {
                assert(decomposes(t, c, hs512_b64_of(secret@, payload_of(c))));
                assert(payload@ == payload_of(c));
                assert(sig@ == hs512_b64_of(secret@, payload_of(c)));
                assert(expected@ == hs512_b64_of(secret@, payload@));
            }
        }
        return Err(AuthError::SignatureInvalid);
    }
    // the signature equals the payload's own tag: only now are claim fields read
    proof {
        assert forall|c: ClaimsView, sig2: Seq<char>|
            is_tampered_token(secret@, t, c, sig2) implies false by {
            assert(decomposes(t, c, sig2));
            assert(sig2 == sig@);
            assert(payload@ == payload_of(c));
            assert(expected@ == hs512_b64_of(secret@, payload_of(c)));
        }
    }
    let seg0 = token.substring_ascii(0, p0);
    let seg1 = token.substring_ascii(p0 + 1, p1);
    let seg2 = token.substring_ascii(p1 + 1, p2);
    let seg3 = token.substring_ascii(p2 + 1, p3);
    let seg4 = token.substring_ascii(p3 + 1, p4);
    let sub = match b64url_decode_str(seg0) {
        Some(s) => s,
        None => {
            proof {
                assert forall|c: ClaimsView, sig2: Seq<char>| !decomposes(t, c, sig2) by {
                    if decomposes(t, c, sig2) {
                        assert(seg0@ == b64_str_of(c.sub));
                    }
                }
                assert forall|c: ClaimsView| is_signed_token(secret@, t, c) implies false by {
                    assert(!decomposes(t, c, hs512_b64_of(secret@, payload_of(c))));
                }
            }
            return Err(AuthError::MalformedCredential);
        },
    };
    let org = match b64url_decode_str(seg1) {
        Some(s) => s,
        None => {
            proof {
                assert forall|c: ClaimsView, sig2: Seq<char>| !decomposes(t, c, sig2) by {
                    if decomposes(t, c, sig2) {
                        assert(seg1@ == b64_str_of(c.org_id));
                    }
                }
                assert forall|c: ClaimsView| is_signed_token(secret@, t, c) implies false by {
                    assert(!decomposes(t, c, hs512_b64_of(secret@, payload_of(c))));
                }
            }
            return Err(AuthError::MalformedCredential);
        },
    };
    let role = match role_from_name(seg2) {
        Some(ro) => ro,
        None => {
            proof {
                assert forall|c: ClaimsView, sig2: Seq<char>| !decomposes(t, c, sig2) by {
                    if decomposes(t, c, sig2) {
                        assert(seg2@ == spec_role_name(c.role));
                    }
                }
                assert forall|c: ClaimsView| is_signed_token(secret@, t, c) implies false by {
                    assert(!decomposes(t, c, hs512_b64_of(secret@, payload_of(c))));
                }
            }
            return Err(AuthError::MalformedCredential);
        },
    };
    let iat = match parse_dec_i64(seg3) {
        Some(v) => v,
        None => {
            proof {
                assert forall|c: ClaimsView, sig2: Seq<char>| !decomposes(t, c, sig2) by {
                    if decomposes(t, c, sig2) {
                        assert(seg3@ == spec_dec_int(c.iat));
                        crate::strutil::lemma_parse_dec_roundtrip(c.iat as i64);
                    }
                }
                assert forall|c: ClaimsView| is_signed_token(secret@, t, c) implies false by {
                    assert(!decomposes(t, c, hs512_b64_of(secret@, payload_of(c))));
                }
            }
            return Err(AuthError::MalformedCredential);
        },
    };
    let exp = match parse_dec_i64(seg4) {
        Some(v) => v,
        None => {
            proof {
                assert forall|c: ClaimsView, sig2: Seq<char>| !decomposes(t, c, sig2) by {
                    if decomposes(t, c, sig2) {
                        assert(seg4@ == spec_dec_int(c.exp));
                        crate::strutil::lemma_parse_dec_roundtrip(c.exp as i64);
                    }
                }
                assert forall|c: ClaimsView| is_signed_token(secret@, t, c) implies false by {
                    assert(!decomposes(t, c, hs512_b64_of(secret@, payload_of(c))));
                }
            }
            return Err(AuthError::MalformedCredential);
        },
    };
    let org_empty = org.as_str().is_empty();
    if org_empty || !(iat < exp) {
        proof {
            assert forall|c: ClaimsView, sig2: Seq<char>| !decomposes(t, c, sig2) by {
                if decomposes(t, c, sig2) {
                    assert(seg1@ == b64_str_of(c.org_id));
                    assert(c.org_id == org@);
                    assert(seg3@ == spec_dec_int(c.iat));
                    assert(seg4@ == spec_dec_int(c.exp));
                    crate::strutil::lemma_parse_dec_sound(seg3@, iat);
                    crate::strutil::lemma_parse_dec_sound(seg4@, exp);
                    crate::strutil::lemma_dec_int_injective(c.iat as i64, iat);
                    crate::strutil::lemma_dec_int_injective(c.exp as i64, exp);
                    assert(c.iat == iat as int && c.exp == exp as int);
                }
            }
            assert forall|c: ClaimsView| is_signed_token(secret@, t, c) implies false by {
                assert(!decomposes(t, c, hs512_b64_of(secret@, payload_of(c))));
            }
            assert forall|c: ClaimsView, sig2: Seq<char>|
                is_tampered_token(secret@, t, c, sig2) implies false by {
                assert(!decomposes(t, c, sig2));
            }
        }
        return Err(AuthError::MalformedCredential);
    }
    let claims = Claims { sub, org_id: org, role, iat, exp };
    proof {
        assert(seg0@ == b64_str_of(claims@.sub));
        assert(seg1@ == b64_str_of(claims@.org_id));
        assert(seg2@ == spec_role_name(claims@.role));
        crate::strutil::lemma_parse_dec_sound(seg3@, iat);
        crate::strutil::lemma_parse_dec_sound(seg4@, exp);
        assert(seg3@ == spec_dec_int(claims@.iat));
        assert(seg4@ == spec_dec_int(claims@.exp));
        assert(payload@ =~= seg0@ + seq!['.'] + seg1@ + seq!['.'] + seg2@ + seq!['.'] + seg3@
            + seq!['.'] + seg4@);
        assert(payload@ == payload_of(claims@));
        assert(t =~= payload@ + seq!['.'] + sig@);
        assert(sig@ == expected@);
        assert(t == token_of(secret@, claims@));
        assert(wf_claims(claims@));
        // pin every decomposition of the token to the parsed claims
        assert forall|c: ClaimsView, sig2: Seq<char>| #![trigger decomposes(t, c, sig2)]
            decomposes(t, c, sig2) implies c == claims@ && sig2 == sig@ by {
            assert(seg0@ == b64_str_of(c.sub));
            assert(c.sub == sub@);
            assert(seg1@ == b64_str_of(c.org_id));
            assert(c.org_id == org@);
            assert(seg2@ == spec_role_name(c.role));
            crate::roles::lemma_role_name_injective(c.role, role);
            assert(seg3@ == spec_dec_int(c.iat));
            assert(seg4@ == spec_dec_int(c.exp));
            crate::strutil::lemma_dec_int_injective(c.iat as i64, iat);
            crate::strutil::lemma_dec_int_injective(c.exp as i64, exp);
            assert(c.iat == iat as int && c.exp == exp as int);
        }
        assert forall|c: ClaimsView|
            is_signed_token(secret@, t, c) implies c == claims@ by {
            assert(decomposes(t, c, hs512_b64_of(secret@, payload_of(c))));
        }
        assert forall|c: ClaimsView, sig2: Seq<char>|
            is_tampered_token(secret@, t, c, sig2) implies false by {
            assert(decomposes(t, c, sig2));
            assert(sig2 == sig@);
            assert(payload@ == payload_of(c));
        }
    }
    if exp <= now {
        Err(AuthError::ExpiredToken)
    } else {
        Ok(claims)
    }
}


/// Issues a token for the given subject, organization and role as of
/// now. Whatever the clock returned, the token is the signed encoding
/// of claims whose window opens at that instant and spans exactly one
/// validity window.
pub fn issue(secret: &[u8], subject: String, org_id: String, role: Role) -> (r: (Claims, String))
    requires
        org_id@.len() > 0,
    ensures
        r.0@.sub == subject@,
        r.0@.org_id == org_id@,
        r.0@.role == role,
        r.0@.exp == r.0@.iat + TOKEN_VALIDITY_SECONDS,
        wf_claims(r.0@),
        r.1@ == token_of(secret@, r.0@),
        encodable(r.0@),
        signable(secret@, r.0@),
{
    let now = now_unix_seconds();
    issue_at(secret, subject, org_id, role, now)
}

} // verus!
