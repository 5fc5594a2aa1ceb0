//! ASCII string helpers shared by the token codec and the API key
//! validator: first-occurrence search, and a canonical decimal codec
//! for signed 64-bit epoch seconds.

use vstd::prelude::*;

verus! {

/// Relies on std's String::push: appends exactly the one character.
#[verifier::external_body]
pub(crate) fn push_char(s: &mut String, c: char)
    ensures
        final(s)@ == old(s)@.push(c),
{
    s.push(c);
}

/// First index of `sep` in `s` at or after `from`, if any.
pub fn find_char_from(s: &str, from: usize, sep: char) -> (r: Option<usize>)
    requires
        s@.len() <= usize::MAX,
        vstd::string::is_ascii(s),
        from <= s@.len(),
        (sep as u32) < 128,
    ensures
        r is Some ==> from <= r->0 < s@.len() && s@[r->0 as int] == sep,
        r is Some ==> forall|j: int| from <= j < r->0 ==> s@[j] != sep,
        r is None ==> forall|j: int| from <= j < s@.len() ==> s@[j] != sep,
{
    proof {
        broadcast use vstd::string::is_ascii_spec_bytes;

    }
    let n: usize = s.len();
    let mut i: usize = from;
    while i < n
        invariant
            vstd::string::is_ascii(s),
            s@.len() == n,
            from <= i <= n,
            (sep as u32) < 128,
            forall|j: int| from <= j < i ==> s@[j] != sep,
        decreases n - i,
    {
        let b = s.get_ascii(i);
        if b == sep as u8 {
            proof {
                assert((s@[i as int] as u32) < 128);
                assert(s@[i as int] as u8 == sep as u8);
                assert(s@[i as int] == sep);
            }
            return Some(i);
        }
        proof {
            assert(s@[i as int] != sep);
        }
        i += 1;
    }
    None
}

/// First index of `sep` in `s` at or after `from`, for strings that may
/// hold arbitrary characters.
pub fn find_char_any(s: &str, from: usize, sep: char) -> (r: Option<usize>)
    requires
        from <= s@.len(),
    ensures
        r is Some ==> from <= r->0 < s@.len() && s@[r->0 as int] == sep,
        r is Some ==> forall|j: int| from <= j < r->0 ==> s@[j] != sep,
        r is None ==> forall|j: int| from <= j < s@.len() ==> s@[j] != sep,
{
    let n: usize = s.unicode_len();
    let mut i: usize = from;
    while i < n
        invariant
            s@.len() == n,
            from <= i <= n,
            forall|j: int| from <= j < i ==> s@[j] != sep,
        decreases n - i,
    {
        let c = s.get_char(i);
        if c == sep {
            return Some(i);
        }
        i += 1;
    }
    None
}

/// If a separator-free segment `a` begins the suffix of `t` at `start`
/// and the separator follows it, then the first separator at or after
/// `start` stands exactly after `a`, splitting the suffix into `a` and
/// the rest.
pub proof fn lemma_peel_segment(
    t: Seq<char>,
    start: int,
    a: Seq<char>,
    rest: Seq<char>,
    i: int,
    sep: char,
)
    requires
        0 <= start <= t.len(),
        t.subrange(start, t.len() as int) == a + seq![sep] + rest,
        forall|k: int| 0 <= k < a.len() ==> a[k] != sep,
        start <= i < t.len(),
        t[i] == sep,
        forall|j: int| start <= j < i ==> t[j] != sep,
    ensures
        i == start + a.len(),
        t.subrange(start, i) == a,
        t.subrange(i + 1, t.len() as int) == rest,
{
    let suf = t.subrange(start, t.len() as int);
    assert(suf.len() == a.len() + 1 + rest.len());
    assert(t[start + a.len()] == sep) by {
        assert(suf[a.len() as int] == t[start + a.len()]);
        assert(suf[a.len() as int] == (a + seq![sep] + rest)[a.len() as int]);
    }
    if i < start + a.len() {
        assert(suf[i - start] == a[i - start]);
        assert(false);
    }
    if i > start + a.len() {
        assert(t[start + a.len()] != sep);
        assert(false);
    }
    assert(t.subrange(start, i) =~= a);
    assert forall|k: int| 0 <= k < rest.len() implies t.subrange(i + 1, t.len() as int)[k]
        == #[trigger] rest[k] by {
        assert(suf[a.len() + 1 + k] == (a + seq![sep] + rest)[a.len() + 1 + k]);
        assert(t[i + 1 + k] == suf[i + 1 - start + k]);
    }
    assert(t.subrange(i + 1, t.len() as int) =~= rest);
}

/// Whether `c` is a decimal digit.
pub open spec fn is_digit(c: char) -> bool {
    '0' <= c <= '9'
}

/// The numeric value of a digit character.
pub open spec fn digit_val(c: char) -> nat
    recommends
        is_digit(c),
{
    (c as u32 - 48) as nat
}

/// The digit character for a value below ten.
pub open spec fn digit_char(d: nat) -> char
    recommends
        d < 10,
{
    ((48 + d) as u8) as char
}

/// Every character of `s` is a decimal digit.
pub open spec fn all_digits(s: Seq<char>) -> bool {
    forall|i: int| 0 <= i < s.len() ==> is_digit(#[trigger] s[i])
}

/// The value of a digit string, read left to right.
pub open spec fn digits_val(s: Seq<char>) -> nat
    decreases s.len(),
{
    if s.len() == 0 {
        0
    } else {
        digits_val(s.drop_last()) * 10 + digit_val(s.last())
    }
}

/// The canonical decimal form of a natural number: no sign, no leading
/// zeros (except for zero itself).
pub open spec fn spec_dec_nat(n: nat) -> Seq<char>
    decreases n,
{
    if n < 10 {
        seq![digit_char(n)]
    } else {
        spec_dec_nat(n / 10) + seq![digit_char(n % 10)]
    }
}

/// The canonical decimal form of a signed number.
pub open spec fn spec_dec_int(n: int) -> Seq<char> {
    if n < 0 {
        seq!['-'] + spec_dec_nat((-n) as nat)
    } else {
        spec_dec_nat(n as nat)
    }
}

/// A digit string is canonical when it is non-empty and has no leading
/// zero (except the single digit zero).
pub open spec fn is_canonical_digits(s: Seq<char>) -> bool {
    &&& s.len() >= 1
    &&& all_digits(s)
    &&& s.len() > 1 ==> s[0] != '0'
}

/// What a digit segment parses to: its value if canonical, else nothing.
pub open spec fn spec_parse_nat(s: Seq<char>) -> Option<nat> {
    if is_canonical_digits(s) {
        Some(digits_val(s))
    } else {
        None
    }
}

/// What a signed decimal segment parses to, bounded to `i64`.
pub open spec fn spec_parse_i64(s: Seq<char>) -> Option<i64> {
    if s.len() >= 1 && s[0] == '-' {
        match spec_parse_nat(s.skip(1)) {
            Some(v) => if 1 <= v <= 0x8000_0000_0000_0000 {
                Some((-(v as int)) as i64)
            } else {
                None
            },
            None => None,
        }
    } else {
        match spec_parse_nat(s) {
            Some(v) => if v <= 0x7fff_ffff_ffff_ffff {
                Some(v as i64)
            } else {
                None
            },
            None => None,
        }
    }
}

/// Ten to the `k`.
pub open spec fn pow10(k: nat) -> nat
    decreases k,
{
    if k == 0 {
        1
    } else {
        10 * pow10((k - 1) as nat)
    }
}

/// The canonical decimal form of `n` is a canonical digit string whose
/// value is `n`, and it contains only digits (in particular neither a
/// dot, an underscore, nor a sign).
pub proof fn lemma_dec_nat(n: nat)
    ensures
        spec_dec_nat(n).len() >= 1,
        all_digits(spec_dec_nat(n)),
        is_canonical_digits(spec_dec_nat(n)),
        digits_val(spec_dec_nat(n)) == n,
        n > 0 ==> spec_dec_nat(n)[0] != '0',
    decreases n,
{
    if n < 10 {
        let s = spec_dec_nat(n);
        assert(s == seq![digit_char(n)]);
        assert(s.len() == 1 && s[0] == digit_char(n) && s.last() == digit_char(n));
        assert(s.drop_last() =~= Seq::<char>::empty());
        assert(digits_val(s.drop_last()) == 0);
        assert(digit_char(n) as u32 == 48 + n);
        assert(digit_val(digit_char(n)) == n);
        assert(digits_val(s) == digits_val(s.drop_last()) * 10 + digit_val(s.last()));
    } else {
        lemma_dec_nat(n / 10);
        let p = spec_dec_nat(n / 10);
        let s = spec_dec_nat(n);
        assert(s == p + seq![digit_char(n % 10)]);
        assert(s.drop_last() =~= p);
        assert(s.last() == digit_char(n % 10));
        assert(digit_char(n % 10) as u32 == 48 + n % 10);
        assert(digit_val(digit_char(n % 10)) == n % 10);
        assert(digits_val(s) == (n / 10) * 10 + n % 10);
        assert(forall|i: int| 0 <= i < p.len() ==> s[i] == #[trigger] p[i]);
        assert(all_digits(s));
        assert((n / 10) * 10 + n % 10 == n) by (nonlinear_arith);
        assert(s[0] == p[0]);
        assert(n / 10 > 0);
    }
}

/// The value of a digit string is below ten to its length.
pub proof fn lemma_digits_val_upper(s: Seq<char>)
    requires
        all_digits(s),
    ensures
        digits_val(s) < pow10(s.len()),
    decreases s.len(),
{
    if s.len() == 0 {
    } else {
        let p = s.drop_last();
        assert(all_digits(p));
        lemma_digits_val_upper(p);
        assert(digit_val(s.last()) <= 9);
        assert(digits_val(p) * 10 + 9 < pow10(p.len()) * 10) by (nonlinear_arith)
            requires
                digits_val(p) < pow10(p.len()),
        ;
    }
}

/// A digit string with a non-zero leading digit has a value of at least
/// ten to one less than its length.
pub proof fn lemma_digits_val_lower(s: Seq<char>)
    requires
        all_digits(s),
        s.len() >= 1,
        s[0] != '0',
    ensures
        digits_val(s) >= pow10((s.len() - 1) as nat),
    decreases s.len(),
{
    if s.len() == 1 {
        assert(digit_val(s[0]) >= 1);
        assert(digits_val(s) == digits_val(s.drop_last()) * 10 + digit_val(s.last()));
        assert(s.drop_last().len() == 0);
    } else {
        let p = s.drop_last();
        assert(p[0] == s[0]);
        lemma_digits_val_lower(p);
        assert(digits_val(p) * 10 >= pow10((p.len() - 1) as nat) * 10) by (nonlinear_arith)
            requires
                digits_val(p) >= pow10((p.len() - 1) as nat),
        ;
        assert(pow10((s.len() - 1) as nat) == 10 * pow10((s.len() - 2) as nat));
    }
}

/// A canonical digit string is the canonical decimal form of its value.
pub proof fn lemma_canonical_digits_dec(s: Seq<char>)
    requires
        is_canonical_digits(s),
    ensures
        s == spec_dec_nat(digits_val(s)),
    decreases s.len(),
{
    let n = digits_val(s);
    if s.len() == 1 {
        assert(s.drop_last().len() == 0);
        assert(digits_val(s.drop_last()) == 0);
        assert(s.last() == s[0]);
        assert(n == digit_val(s[0]));
        assert(n < 10);
        assert(is_digit(s[0]));
        assert(digit_char(n) as u32 == 48 + n);
        assert(s[0] as u32 == 48 + digit_val(s[0]));
        assert(digit_char(n) == s[0]);
        assert(spec_dec_nat(n) =~= s);
    } else {
        let p = s.drop_last();
        assert(p[0] == s[0]);
        assert(is_canonical_digits(p));
        lemma_canonical_digits_dec(p);
        lemma_digits_val_lower(p);
        assert(pow10((p.len() - 1) as nat) >= 1) by {
            lemma_pow10_pos((p.len() - 1) as nat);
        }
        let d = digit_val(s.last());
        assert(n == digits_val(p) * 10 + d);
        assert(n / 10 == digits_val(p) && n % 10 == d) by (nonlinear_arith)
            requires
                n == digits_val(p) * 10 + d,
                0 <= d < 10,
        ;
        assert(n >= 10) by (nonlinear_arith)
            requires
                n == digits_val(p) * 10 + d,
                digits_val(p) >= 1,
                d >= 0,
        ;
        assert(digit_char(n % 10) == s.last());
        assert(spec_dec_nat(n) == spec_dec_nat(n / 10) + seq![digit_char(n % 10)]);
        assert(spec_dec_nat(n) =~= s);
    }
}

/// The concrete value of ten to the twenty, which brackets `u64::MAX`.
pub proof fn lemma_pow10_20()
    ensures
        pow10(20) == 100_000_000_000_000_000_000,
        pow10(20) > u64::MAX,
        pow10(20) < u128::MAX / 10,
{
    assert(pow10(20) == 100_000_000_000_000_000_000) by {
        reveal_with_fuel(pow10, 21);
    }
}

/// Ten to the `k` is positive.
pub proof fn lemma_pow10_pos(k: nat)
    ensures
        pow10(k) >= 1,
    decreases k,
{
    if k > 0 {
        lemma_pow10_pos((k - 1) as nat);
    }
}

/// Ten to the `k` grows with `k`.
pub proof fn lemma_pow10_mono(a: nat, b: nat)
    requires
        a <= b,
    ensures
        pow10(a) <= pow10(b),
    decreases b,
{
    if a < b {
        lemma_pow10_mono(a, (b - 1) as nat);
        lemma_pow10_pos((b - 1) as nat);
    }
}

/// Parsing inverts printing: the canonical decimal form of any `i64`
/// parses back to it.
pub proof fn lemma_parse_dec_roundtrip(n: i64)
    ensures
        spec_parse_i64(spec_dec_int(n as int)) == Some(n),
{
    if n < 0 {
        let m = (-(n as int)) as nat;
        lemma_dec_nat(m);
        let s = spec_dec_int(n as int);
        assert(s == seq!['-'] + spec_dec_nat(m));
        assert(s[0] == '-');
        assert(s.skip(1) =~= spec_dec_nat(m));
        assert(1 <= m <= 0x8000_0000_0000_0000);
    } else {
        let m = n as nat;
        lemma_dec_nat(m);
        let s = spec_dec_int(n as int);
        assert(s == spec_dec_nat(m));
        if s.len() >= 1 && s[0] == '-' {
            assert(is_digit(s[0]));
            assert(false);
        }
    }
}

/// Printing inverts parsing: a segment that parses to `n` is the
/// canonical decimal form of `n`.
pub proof fn lemma_parse_dec_sound(s: Seq<char>, n: i64)
    requires
        spec_parse_i64(s) == Some(n),
    ensures
        s == spec_dec_int(n as int),
{
    if s.len() >= 1 && s[0] == '-' {
        let t = s.skip(1);
        assert(is_canonical_digits(t));
        lemma_canonical_digits_dec(t);
        let v = digits_val(t);
        assert(1 <= v <= 0x8000_0000_0000_0000);
        assert(n == (-(v as int)) as i64);
        assert(n as int == -(v as int));
        assert(spec_dec_int(n as int) == seq!['-'] + spec_dec_nat(v));
        assert(s =~= seq!['-'] + t);
    } else {
        assert(is_canonical_digits(s));
        lemma_canonical_digits_dec(s);
        let v = digits_val(s);
        assert(v <= 0x7fff_ffff_ffff_ffff);
        assert(n == v as i64);
        assert(spec_dec_int(n as int) == spec_dec_nat(v));
    }
}

/// Two distinct values never share a decimal form.
pub proof fn lemma_dec_int_injective(a: i64, b: i64)
    ensures
        spec_dec_int(a as int) == spec_dec_int(b as int) ==> a == b,
{
    if spec_dec_int(a as int) == spec_dec_int(b as int) {
        lemma_parse_dec_roundtrip(a);
        lemma_parse_dec_roundtrip(b);
    }
}

/// The canonical decimal form of an `i64` holds only digits and, for a
/// negative value, a leading minus sign; in particular no dot and no
/// underscore.
pub proof fn lemma_dec_int_chars(n: i64)
    ensures
        forall|i: int|
            0 <= i < spec_dec_int(n as int).len() ==> (is_digit(
                #[trigger] spec_dec_int(n as int)[i],
            ) || spec_dec_int(n as int)[i] == '-'),
        spec_dec_int(n as int).len() >= 1,
{
    if n < 0 {
        lemma_dec_nat((-(n as int)) as nat);
        let s = spec_dec_int(n as int);
        let t = spec_dec_nat((-(n as int)) as nat);
        assert(forall|i: int| 1 <= i < s.len() ==> s[i] == t[i - 1]);
    } else {
        lemma_dec_nat(n as nat);
    }
}

/// Appends the canonical decimal form of `n` to `s`.
pub fn push_dec_nat(s: &mut String, n: u64)
    ensures
        final(s)@ == old(s)@ + spec_dec_nat(n as nat),
    decreases n,
{
    if n < 10 {
        let c: char = (48 + (n as u8)) as char;
        assert(c == digit_char(n as nat));
        push_char(s, c);
        assert(s@ =~= old(s)@ + spec_dec_nat(n as nat));
    } else {
        push_dec_nat(s, n / 10);
        let d: u8 = (n % 10) as u8;
        let c: char = (48 + d) as char;
        assert(c == digit_char(n as nat % 10));
        push_char(s, c);
        assert(s@ =~= old(s)@ + spec_dec_nat(n as nat));
    }
}

/// Appends the canonical decimal form of `n` to `s`.
pub fn push_dec_i64(s: &mut String, n: i64)
    ensures
        final(s)@ == old(s)@ + spec_dec_int(n as int),
{
    if n < 0 {
        push_char(s, '-');
        let m: u64 = if n == i64::MIN {
            9_223_372_036_854_775_808u64
        } else {
            (-n) as u64
        };
        assert(m as nat == (-(n as int)) as nat);
        push_dec_nat(s, m);
        assert(s@ =~= old(s)@ + spec_dec_int(n as int));
    } else {
        push_dec_nat(s, n as u64);
    }
}

/// Parses an ASCII segment as a canonical unsigned decimal with value at
/// most `max`.
fn parse_dec_bounded(s: &str, from: usize, max: u64) -> (r: Option<u64>)
    requires
        vstd::string::is_ascii(s),
        s@.len() <= usize::MAX,
        from <= s@.len(),
    ensures
        spec_parse_nat(s@.skip(from as int)) is None ==> r is None,
        spec_parse_nat(s@.skip(from as int)) matches Some(v) ==> r == (if v <= max {
            Some(v as u64)
        } else {
            None::<u64>
        }),
{
    proof {
        broadcast use vstd::string::is_ascii_spec_bytes;

    }
    let ghost t = s@.skip(from as int);
    let n: usize = s.len();
    if from == n {
        assert(t.len() == 0);
        return None;
    }
    let first = s.get_ascii(from);
    if first < 48 || first > 57 {
        proof {
            assert(t[0] == s@[from as int]);
            assert(!is_digit(t[0]));
        }
        return None;
    }
    if first == 48 && n - from > 1 {
        proof {
            assert(t[0] == '0');
            assert(!is_canonical_digits(t) || t.len() == 1);
        }
        return None;
    }
    // a canonical segment of more than 20 digits exceeds u64::MAX
    if n - from > 20 {
        proof {
            if is_canonical_digits(t) {
                assert(t[0] != '0' || t.len() == 1);
                lemma_digits_val_lower(t);
                lemma_pow10_mono(20, (t.len() - 1) as nat);
                lemma_pow10_20();
            }
        }
        return None;
    }
    let mut acc: u128 = 0;
    let mut i: usize = from;
    while i < n
        invariant
            vstd::string::is_ascii(s),
            s@.len() == n <= usize::MAX,
            from <= i <= n,
            n - from <= 20,
            t == s@.skip(from as int),
            all_digits(t.take(i - from)),
            acc == digits_val(t.take(i - from)),
            acc < pow10((i - from) as nat),
        decreases n - i,
    {
        let b = s.get_ascii(i);
        if b < 48 || b > 57 {
            proof {
                assert(t[i - from] == s@[i as int]);
                assert(!is_digit(t[i - from]));
            }
            return None;
        }
        proof {
            assert(t[i - from] == s@[i as int]);
            assert(is_digit(t[i - from]));
            assert(digit_val(t[i - from]) == (b - 48) as nat);
            lemma_pow10_mono((i - from + 1) as nat, 20);
            lemma_pow10_20();
            assert(acc * 10 < pow10((i - from) as nat) * 10) by (nonlinear_arith)
                requires
                    acc < pow10((i - from) as nat),
            ;
            assert(t.take(i - from + 1).drop_last() =~= t.take(i - from));
            assert(t.take(i - from + 1).last() == t[i - from]);
        }
        acc = acc * 10 + ((b - 48) as u128);
        i += 1;
    }
    proof {
        assert(t.take(n - from) =~= t);
        assert(is_canonical_digits(t));
    }
    if acc <= max as u128 {
        Some(acc as u64)
    } else {
        None
    }
}

/// Parses an ASCII segment as a canonical signed 64-bit decimal.
pub fn parse_dec_i64(s: &str) -> (r: Option<i64>)
    requires
        vstd::string::is_ascii(s),
        s@.len() <= usize::MAX,
    ensures
        r == spec_parse_i64(s@),
{
    proof {
        broadcast use vstd::string::is_ascii_spec_bytes;

    }
    let n: usize = s.len();
    if n >= 1 && s.get_ascii(0) == 45 {
        proof {
            assert(s@[0] as u8 == 45);
            assert(s@[0] == '-');
        }
        match parse_dec_bounded(s, 1, 0x8000_0000_0000_0000u64) {
            Some(v) => {
                if v >= 1 {
                    let r: i64 = if v == 0x8000_0000_0000_0000u64 {
                        i64::MIN
                    } else {
                        -(v as i64)
                    };
                    assert(r as int == -(v as int));
                    Some(r)
                } else {
                    None
                }
            },
            None => None,
        }
    } else {
        proof {
            if n >= 1 {
                assert(s@[0] as u8 != 45);
                assert(s@[0] != '-');
            }
            assert(s@.skip(0) =~= s@);
        }
        match parse_dec_bounded(s, 0, 0x7fff_ffff_ffff_ffffu64) {
            Some(v) => Some(v as i64),
            None => None,
        }
    }
}

} // verus!
