//! Verified text utilities: splitting on a separator, decimal parsing and
//! rendering, and the grammar of floating-point number text.

use vstd::prelude::*;

verus! {

/// Two string slices are equal exactly when their character sequences are.
pub fn str_eq(a: &str, b: &str) -> (r: bool)
    ensures
        r == (a@ == b@),
{
    let sa: String = a.to_owned();
    let sb: String = b.to_owned();
    sa == sb
}

/// The pieces of `s` between occurrences of `sep`, in order.  Splitting the
/// empty sequence gives one empty piece, as `str::split` does.
pub open spec fn spec_split(s: Seq<char>, sep: char) -> Seq<Seq<char>>
    decreases s.len(),
{
    if s.len() == 0 {
        seq![Seq::<char>::empty()]
    } else {
        let prev = spec_split(s.drop_last(), sep);
        if s.last() == sep {
            prev.push(Seq::<char>::empty())
        } else {
            prev.update(prev.len() - 1, prev.last().push(s.last()))
        }
    }
}

pub proof fn lemma_split_nonempty(s: Seq<char>, sep: char)
    ensures
        spec_split(s, sep).len() >= 1,
    decreases s.len(),
{
    if s.len() > 0 {
        lemma_split_nonempty(s.drop_last(), sep);
    }
}

/// Splits `s` at every occurrence of `sep`, as `str::split` does.
pub fn split_char(s: &str, sep: char) -> (r: Vec<String>)
    ensures
        r.deep_view() == spec_split(s@, sep),
{
    let n = s.unicode_len();
    let mut parts: Vec<String> = Vec::new();
    let mut cur: String = String::new();
    let mut i: usize = 0;
    while i < n
        invariant
            n == s@.len(),
            i <= n,
            parts.deep_view().push(cur@) == spec_split(s@.take(i as int), sep),
        decreases n - i,
    {
        let cs = s.substring_char(i, i + 1);
        let c = cs.get_char(0);
        proof {
            lemma_split_nonempty(s@.take(i as int), sep);
            assert(s@.take(i + 1).drop_last() =~= s@.take(i as int));
            assert(s@.take(i + 1).last() == s@[i as int]);
        }
        if c == sep {
            let ghost old_parts = parts.deep_view();
            let ghost old_cur = cur@;
            parts.push(cur);
            cur = String::new();
            proof {
                assert(parts.deep_view() =~= old_parts.push(old_cur));
                assert(parts.deep_view().push(cur@) =~= spec_split(s@.take(i + 1), sep));
            }
        } else {
            let ghost old_cur = cur@;
            cur.append(cs);
            proof {
                assert(cur@ =~= old_cur.push(s@[i as int]));
                let prev = spec_split(s@.take(i as int), sep);
                assert(prev.last() == old_cur);
                assert(parts.deep_view().push(cur@) =~= prev.update(
                    prev.len() - 1,
                    prev.last().push(s@[i as int]),
                ));
            }
        }
        i += 1;
    }
    let ghost old_parts = parts.deep_view();
    parts.push(cur);
    proof {
        assert(s@.take(n as int) =~= s@);
        assert(parts.deep_view() =~= old_parts.push(cur@));
        assert(parts.deep_view() =~= spec_split(s@, sep));
    }
    parts
}

// ---------------------------------------------------------------------------
// Decimal digits and unsigned parsing
// ---------------------------------------------------------------------------

pub open spec fn is_digit(c: char) -> bool {
    '0' <= c && c <= '9'
}

pub open spec fn digit_val(c: char) -> nat {
    (c as int - '0' as int) as nat
}

pub open spec fn all_digits(s: Seq<char>) -> bool {
    forall|i: int| 0 <= i < s.len() ==> is_digit(#[trigger] s[i])
}

/// The value of a sequence of decimal digits, most significant first.
pub open spec fn digits_val(s: Seq<char>) -> nat
    decreases s.len(),
{
    if s.len() == 0 {
        0
    } else {
        digits_val(s.drop_last()) * 10 + digit_val(s.last())
    }
}

/// What an unsigned decimal parse of `s` yields: an optional leading `+`,
/// then one or more digits whose value fits in 32 bits.
pub open spec fn spec_parse_u32(s: Seq<char>) -> Option<u32> {
    let t = if s.len() > 0 && s[0] == '+' {
        s.skip(1)
    } else {
        s
    };
    if t.len() > 0 && all_digits(t) && digits_val(t) <= u32::MAX {
        Some(digits_val(t) as u32)
    } else {
        None
    }
}

proof fn lemma_digits_val_prefix_le(s: Seq<char>, j: int)
    requires
        0 <= j <= s.len(),
    ensures
        digits_val(s.take(j)) <= digits_val(s),
    decreases s.len() - j,
{
    if j == s.len() {
        assert(s.take(j) =~= s);
    } else {
        assert(s.take(j + 1).drop_last() =~= s.take(j));
        assert(digits_val(s.take(j + 1)) == digits_val(s.take(j)) * 10 + digit_val(
            s.take(j + 1).last(),
        ));
        lemma_digits_val_prefix_le(s, j + 1);
    }
}

/// Parses an unsigned decimal integer: an optional `+` sign followed by one
/// or more digits, rejected when the value does not fit in 32 bits.
#[verifier::rlimit(50)]
pub fn parse_u32(s: &str) -> (r: Option<u32>)
    ensures
        r == spec_parse_u32(s@),
{
    let n = s.unicode_len();
    let mut i: usize = 0;
    if n > 0 && s.get_char(0) == '+' {
        i = 1;
    }
    let ghost t = if s@.len() > 0 && s@[0] == '+' {
        s@.skip(1)
    } else {
        s@
    };
    let start = i;
    proof {
        assert(t =~= s@.skip(start as int));
    }
    if i == n {
        return None;
    }
    let mut val: u64 = 0;
    while i < n
        invariant
            start <= i <= n,
            n == s@.len(),
            start <= 1,
            t == s@.skip(start as int),
            t == (if s@.len() > 0 && s@[0] == '+' {
                s@.skip(1)
            } else {
                s@
            }),
            forall|j: int| 0 <= j < i - start ==> is_digit(#[trigger] t[j]),
            val == digits_val(t.take(i - start)),
            val <= u32::MAX,
        decreases n - i,
    {
        let c = s.get_char(i);
        if !('0' <= c && c <= '9') {
            proof {
                assert(t[i - start] == c);
                assert(!all_digits(t));
            }
            return None;
        }
        let d: u64 = (c as u32 - '0' as u32) as u64;
        let v2 = val * 10 + d;
        proof {
            let k = i - start;
            assert(t.take(k + 1).drop_last() =~= t.take(k));
            assert(t.take(k + 1).last() == c);
            assert(digits_val(t.take(k + 1)) == val * 10 + digit_val(c));
        }
        if v2 > 0xffff_ffff {
            proof {
                lemma_digits_val_prefix_le(t, i - start + 1);
                assert(!(digits_val(t) <= u32::MAX));
            }
            return None;
        }
        val = v2;
        i += 1;
    }
    proof {
        assert(t.take(n - start) =~= t);
        assert(all_digits(t));
    }
    Some(val as u32)
}

// ---------------------------------------------------------------------------
// Decimal rendering
// ---------------------------------------------------------------------------

pub open spec fn dec_digit(d: nat) -> char {
    if d == 0 {
        '0'
    } else if d == 1 {
        '1'
    } else if d == 2 {
        '2'
    } else if d == 3 {
        '3'
    } else if d == 4 {
        '4'
    } else if d == 5 {
        '5'
    } else if d == 6 {
        '6'
    } else if d == 7 {
        '7'
    } else if d == 8 {
        '8'
    } else {
        '9'
    }
}

/// The decimal rendering of `n`, most significant digit first, no sign and no
/// leading zero except for `n == 0` itself.
pub open spec fn spec_dec(n: nat) -> Seq<char>
    decreases n,
{
    if n < 10 {
        seq![dec_digit(n)]
    } else {
        spec_dec(n / 10).push(dec_digit(n % 10))
    }
}

fn dec_digit_str(d: u64) -> (r: &'static str)
    requires
        d < 10,
    ensures
        r@ =~= seq![dec_digit(d as nat)],
{
    proof {
        reveal_strlit("0");
        reveal_strlit("1");
        reveal_strlit("2");
        reveal_strlit("3");
        reveal_strlit("4");
        reveal_strlit("5");
        reveal_strlit("6");
        reveal_strlit("7");
        reveal_strlit("8");
        reveal_strlit("9");
    }
    if d == 0 {
        "0"
    } else if d == 1 {
        "1"
    } else if d == 2 {
        "2"
    } else if d == 3 {
        "3"
    } else if d == 4 {
        "4"
    } else if d == 5 {
        "5"
    } else if d == 6 {
        "6"
    } else if d == 7 {
        "7"
    } else if d == 8 {
        "8"
    } else {
        "9"
    }
}

/// Appends the decimal rendering of `n` to `out`.
pub fn push_decimal(out: &mut String, n: u64)
    ensures
        final(out)@ == old(out)@ + spec_dec(n as nat),
    decreases n,
{
    if n < 10 {
        out.append(dec_digit_str(n));
        proof {
            assert(final(out)@ =~= old(out)@ + spec_dec(n as nat));
        }
    } else {
        push_decimal(out, n / 10);
        out.append(dec_digit_str(n % 10));
        proof {
            assert(final(out)@ =~= old(out)@ + spec_dec(n as nat));
        }
    }
}

/// The decimal rendering of `n` as a fresh string.
pub fn u64_to_dec(n: u64) -> (r: String)
    ensures
        r@ == spec_dec(n as nat),
{
    let mut out = String::new();
    push_decimal(&mut out, n);
    proof {
        assert(out@ =~= spec_dec(n as nat));
    }
    out
}

// ---------------------------------------------------------------------------
// The grammar of floating-point number text
//
// This is the grammar that `str::parse::<f64>` documents: an optional sign,
// then one of the keywords `inf`, `infinity`, `nan` (any letter case), or
// digits with an optional decimal point and an optional exponent part.
// ---------------------------------------------------------------------------

pub open spec fn strip_sign(s: Seq<char>) -> Seq<char> {
    if s.len() > 0 && (s[0] == '+' || s[0] == '-') {
        s.skip(1)
    } else {
        s
    }
}

pub open spec fn is_inf_kw(s: Seq<char>) -> bool {
    &&& s.len() == 3
    &&& (s[0] == 'i' || s[0] == 'I')
    &&& (s[1] == 'n' || s[1] == 'N')
    &&& (s[2] == 'f' || s[2] == 'F')
}

pub open spec fn is_infinity_kw(s: Seq<char>) -> bool {
    &&& s.len() == 8
    &&& (s[0] == 'i' || s[0] == 'I')
    &&& (s[1] == 'n' || s[1] == 'N')
    &&& (s[2] == 'f' || s[2] == 'F')
    &&& (s[3] == 'i' || s[3] == 'I')
    &&& (s[4] == 'n' || s[4] == 'N')
    &&& (s[5] == 'i' || s[5] == 'I')
    &&& (s[6] == 't' || s[6] == 'T')
    &&& (s[7] == 'y' || s[7] == 'Y')
}

pub open spec fn is_nan_kw(s: Seq<char>) -> bool {
    &&& s.len() == 3
    &&& (s[0] == 'n' || s[0] == 'N')
    &&& (s[1] == 'a' || s[1] == 'A')
    &&& (s[2] == 'n' || s[2] == 'N')
}

/// Digits, or digits around one decimal point with at least one digit in all.
pub open spec fn is_mantissa(s: Seq<char>) -> bool {
    ||| s.len() > 0 && all_digits(s)
    ||| s.len() >= 2 && exists|i: int|
        0 <= i < s.len() && s[i] == '.' && all_digits(s.take(i)) && all_digits(s.skip(i + 1))
}

/// What may follow the exponent marker: an optional sign, then digits.
pub open spec fn is_exp_tail(s: Seq<char>) -> bool {
    strip_sign(s).len() > 0 && all_digits(strip_sign(s))
}

pub open spec fn is_number(s: Seq<char>) -> bool {
    ||| is_mantissa(s)
    ||| exists|i: int|
        0 <= i < s.len() && (s[i] == 'e' || s[i] == 'E') && is_mantissa(s.take(i)) && is_exp_tail(
            s.skip(i + 1),
        )
}

/// Whether `s` is text that reads as a floating-point number.
pub open spec fn spec_is_float_text(s: Seq<char>) -> bool {
    ||| is_inf_kw(strip_sign(s))
    ||| is_infinity_kw(strip_sign(s))
    ||| is_nan_kw(strip_sign(s))
    ||| is_number(strip_sign(s))
}

/// A sequence holding a character that is neither a digit nor a point cannot
/// be a mantissa.
proof fn lemma_mantissa_all_digits_or_point(s: Seq<char>, i: int)
    requires
        0 <= i < s.len(),
        !is_digit(s[i]),
        s[i] != '.',
    ensures
        !is_mantissa(s),
{
    assert forall|j: int|
        0 <= j < s.len() && s[j] == '.' implies !(all_digits(s.take(j)) && all_digits(
        s.skip(j + 1),
    )) by {
        if j < i {
            assert(s.skip(j + 1)[i - j - 1] == s[i]);
        } else {
            assert(s.take(j)[i] == s[i]);
        }
    }
}

fn all_digits_range(s: &str, lo: usize, hi: usize) -> (r: bool)
    requires
        lo <= hi <= s@.len(),
    ensures
        r == all_digits(s@.subrange(lo as int, hi as int)),
{
    let ghost sub = s@.subrange(lo as int, hi as int);
    let mut i = lo;
    while i < hi
        invariant
            lo <= i <= hi <= s@.len(),
            sub == s@.subrange(lo as int, hi as int),
            forall|j: int| lo <= j < i ==> is_digit(#[trigger] s@[j]),
        decreases hi - i,
    {
        let c = s.get_char(i);
        if !('0' <= c && c <= '9') {
            proof {
                assert(sub[i - lo] == c);
            }
            return false;
        }
        i += 1;
    }
    proof {
        assert forall|j: int| 0 <= j < sub.len() implies is_digit(#[trigger] sub[j]) by {
            assert(sub[j] == s@[lo + j]);
        }
    }
    true
}

/// The first position in `[lo, hi)` holding `c1` or `c2`, if any.
fn find_char2(s: &str, lo: usize, hi: usize, c1: char, c2: char) -> (r: Option<usize>)
    requires
        lo <= hi <= s@.len(),
    ensures
        match r {
            Some(k) => lo <= k < hi && (s@[k as int] == c1 || s@[k as int] == c2) && forall|j: int|
                lo <= j < k ==> !(#[trigger] s@[j] == c1 || s@[j] == c2),
            None => forall|j: int| lo <= j < hi ==> !(#[trigger] s@[j] == c1 || s@[j] == c2),
        },
{
    let mut i = lo;
    while i < hi
        invariant
            lo <= i <= hi <= s@.len(),
            forall|j: int| lo <= j < i ==> !(#[trigger] s@[j] == c1 || s@[j] == c2),
        decreases hi - i,
    {
        let c = s.get_char(i);
        if c == c1 || c == c2 {
            return Some(i);
        }
        i += 1;
    }
    None
}

fn check_mantissa(s: &str, lo: usize, hi: usize) -> (r: bool)
    requires
        lo <= hi <= s@.len(),
    ensures
        r == is_mantissa(s@.subrange(lo as int, hi as int)),
{
    let ghost sub = s@.subrange(lo as int, hi as int);
    match find_char2(s, lo, hi, '.', '.') {
        None => {
            let r = lo < hi && all_digits_range(s, lo, hi);
            proof {
                if !r {
                    assert forall|i: int|
                        0 <= i < sub.len() && sub[i] == '.' implies !(all_digits(sub.take(i))
                        && all_digits(sub.skip(i + 1))) by {
                        assert(s@[lo + i] == '.');
                    }
                }
            }
            r
        },
        Some(k) => {
            let before = all_digits_range(s, lo, k);
            let after = all_digits_range(s, k + 1, hi);
            let ghost d = k - lo;
            proof {
                assert(sub[d] == '.');
                assert(sub.take(d) =~= s@.subrange(lo as int, k as int));
                assert(sub.skip(d + 1) =~= s@.subrange(k + 1, hi as int));
                assert(!all_digits(sub));
            }
            if before && after && hi - lo >= 2 {
                proof {
                    assert(is_mantissa(sub));
                }
                true
            } else {
                proof {
                    if hi - lo >= 2 {
                        assert forall|i: int|
                            0 <= i < sub.len() && sub[i] == '.' implies !(all_digits(sub.take(i))
                            && all_digits(sub.skip(i + 1))) by {
                            if i < d {
                                assert(s@[lo + i] == '.');
                            } else if i > d {
                                assert(sub.take(i)[d] == '.');
                            }
                        }
                    }
                }
                false
            }
        },
    }
}

fn check_exp_tail(s: &str, lo: usize, hi: usize) -> (r: bool)
    requires
        lo <= hi <= s@.len(),
    ensures
        r == is_exp_tail(s@.subrange(lo as int, hi as int)),
{
    let ghost sub = s@.subrange(lo as int, hi as int);
    let mut start = lo;
    if lo < hi {
        let c = s.get_char(lo);
        if c == '+' || c == '-' {
            start = lo + 1;
        }
    }
    proof {
        assert(strip_sign(sub) =~= s@.subrange(start as int, hi as int));
    }
    start < hi && all_digits_range(s, start, hi)
}

fn check_inf(s: &str, lo: usize, hi: usize) -> (r: bool)
    requires
        lo <= hi <= s@.len(),
    ensures
        r == is_inf_kw(s@.subrange(lo as int, hi as int)),
{
    let ghost sub = s@.subrange(lo as int, hi as int);
    if hi - lo != 3 {
        return false;
    }
    let c0 = s.get_char(lo);
    let c1 = s.get_char(lo + 1);
    let c2 = s.get_char(lo + 2);
    (c0 == 'i' || c0 == 'I') && (c1 == 'n' || c1 == 'N') && (c2 == 'f' || c2 == 'F')
}

fn check_infinity(s: &str, lo: usize, hi: usize) -> (r: bool)
    requires
        lo <= hi <= s@.len(),
    ensures
        r == is_infinity_kw(s@.subrange(lo as int, hi as int)),
{
    let ghost sub = s@.subrange(lo as int, hi as int);
    if hi - lo != 8 {
        return false;
    }
    let c0 = s.get_char(lo);
    let c1 = s.get_char(lo + 1);
    let c2 = s.get_char(lo + 2);
    let c3 = s.get_char(lo + 3);
    let c4 = s.get_char(lo + 4);
    let c5 = s.get_char(lo + 5);
    let c6 = s.get_char(lo + 6);
    let c7 = s.get_char(lo + 7);
    (c0 == 'i' || c0 == 'I') && (c1 == 'n' || c1 == 'N') && (c2 == 'f' || c2 == 'F') && (c3 == 'i'
        || c3 == 'I') && (c4 == 'n' || c4 == 'N') && (c5 == 'i' || c5 == 'I') && (c6 == 't' || c6
        == 'T') && (c7 == 'y' || c7 == 'Y')
}

fn check_nan(s: &str, lo: usize, hi: usize) -> (r: bool)
    requires
        lo <= hi <= s@.len(),
    ensures
        r == is_nan_kw(s@.subrange(lo as int, hi as int)),
{
    let ghost sub = s@.subrange(lo as int, hi as int);
    if hi - lo != 3 {
        return false;
    }
    let c0 = s.get_char(lo);
    let c1 = s.get_char(lo + 1);
    let c2 = s.get_char(lo + 2);
    (c0 == 'n' || c0 == 'N') && (c1 == 'a' || c1 == 'A') && (c2 == 'n' || c2 == 'N')
}

/// Decides whether `s` reads as a floating-point number.
pub fn is_float_text(s: &str) -> (r: bool)
    ensures
        r == spec_is_float_text(s@),
{
    let n = s.unicode_len();
    let mut lo: usize = 0;
    if n > 0 {
        let c = s.get_char(0);
        if c == '+' || c == '-' {
            lo = 1;
        }
    }
    let ghost b = strip_sign(s@);
    proof {
        assert(b =~= s@.subrange(lo as int, n as int));
    }
    if check_inf(s, lo, n) || check_infinity(s, lo, n) || check_nan(s, lo, n) {
        return true;
    }
    match find_char2(s, lo, n, 'e', 'E') {
        None => {
            let r = check_mantissa(s, lo, n);
            proof {
                if !r {
                    assert forall|i: int|
                        0 <= i < b.len() && (b[i] == 'e' || b[i] == 'E') implies !(is_mantissa(
                        b.take(i),
                    ) && is_exp_tail(b.skip(i + 1))) by {
                        assert(s@[lo + i] == b[i]);
                    }
                }
            }
            r
        },
        Some(k) => {
            let ghost d = k - lo;
            proof {
                assert(b[d] == s@[k as int]);
                lemma_mantissa_all_digits_or_point(b, d);
            }
            let m = check_mantissa(s, lo, k);
            let e = check_exp_tail(s, k + 1, n);
            proof {
                assert(b.take(d) =~= s@.subrange(lo as int, k as int));
                assert(b.skip(d + 1) =~= s@.subrange(k + 1, n as int));
                if m && e {
                    assert(is_number(b));
                } else {
                    assert forall|i: int|
                        0 <= i < b.len() && (b[i] == 'e' || b[i] == 'E') implies !(is_mantissa(
                        b.take(i),
                    ) && is_exp_tail(b.skip(i + 1))) by {
                        if i > d {
                            assert(b.take(i)[d] == b[d]);
                            lemma_mantissa_all_digits_or_point(b.take(i), d);
                        } else {
                            assert(s@[lo + i] == b[i]);
                        }
                    }
                }
            }
            m && e
        },
    }
}

// ---------------------------------------------------------------------------
// Fixed-width rendering
// ---------------------------------------------------------------------------

/// `s` left-padded with spaces to at least four characters.
pub open spec fn spec_pad4(s: Seq<char>) -> Seq<char> {
    if s.len() >= 4 {
        s
    } else if s.len() == 3 {
        seq![' '] + s
    } else if s.len() == 2 {
        seq![' ', ' '] + s
    } else if s.len() == 1 {
        seq![' ', ' ', ' '] + s
    } else {
        seq![' ', ' ', ' ', ' ']
    }
}

/// Appends `s` to `out`, left-padded with spaces to at least four characters.
pub fn push_pad4(out: &mut String, s: &str)
    ensures
        final(out)@ == old(out)@ + spec_pad4(s@),
{
    proof {
        reveal_strlit(" ");
        reveal_strlit("  ");
        reveal_strlit("   ");
        reveal_strlit("    ");
    }
    let n = s.unicode_len();
    if n == 3 {
        out.append(" ");
    } else if n == 2 {
        out.append("  ");
    } else if n == 1 {
        out.append("   ");
    } else if n == 0 {
        out.append("    ");
    }
    out.append(s);
    proof {
        assert(final(out)@ =~= old(out)@ + spec_pad4(s@));
    }
}

/// `ms` milliseconds rendered as seconds with three decimal places.
pub open spec fn spec_frac3(r: nat) -> Seq<char> {
    if r < 10 {
        seq!['0', '0'] + spec_dec(r)
    } else if r < 100 {
        seq!['0'] + spec_dec(r)
    } else {
        spec_dec(r)
    }
}

pub open spec fn spec_seconds_text(ms: nat) -> Seq<char> {
    spec_dec(ms / 1000) + seq!['.'] + spec_frac3(ms % 1000)
}

/// Renders `ms` milliseconds as seconds text with three decimal places.
pub fn seconds_text(ms: u64) -> (r: String)
    ensures
        r@ == spec_seconds_text(ms as nat),
{
    proof {
        reveal_strlit(".");
        reveal_strlit("0");
        reveal_strlit("00");
    }
    let mut out = String::new();
    push_decimal(&mut out, ms / 1000);
    out.append(".");
    let rem = ms % 1000;
    if rem < 10 {
        out.append("00");
    } else if rem < 100 {
        out.append("0");
    }
    push_decimal(&mut out, rem);
    proof {
        assert(out@ =~= spec_seconds_text(ms as nat));
    }
    out
}

pub proof fn lemma_dec_all_digits(n: nat)
    ensures
        all_digits(spec_dec(n)),
        spec_dec(n).len() >= 1,
    decreases n,
{
    if n < 10 {
        assert(is_digit(dec_digit(n)));
    } else {
        lemma_dec_all_digits(n / 10);
        assert(is_digit(dec_digit(n % 10)));
        assert forall|i: int| 0 <= i < spec_dec(n).len() implies is_digit(
            #[trigger] spec_dec(n)[i],
        ) by {
            if i < spec_dec(n / 10).len() {
                assert(spec_dec(n)[i] == spec_dec(n / 10)[i]);
            }
        }
    }
}

/// Seconds text always reads as a floating-point number.
pub proof fn lemma_seconds_text_is_float(ms: nat)
    ensures
        spec_is_float_text(spec_seconds_text(ms)),
{
    let t = spec_seconds_text(ms);
    let q = spec_dec(ms / 1000);
    let f = spec_frac3(ms % 1000);
    lemma_dec_all_digits(ms / 1000);
    lemma_dec_all_digits(ms % 1000);
    assert(all_digits(f)) by {
        assert forall|i: int| 0 <= i < f.len() implies is_digit(#[trigger] f[i]) by {
            if ms % 1000 < 10 {
                if i >= 2 {
                    assert(f[i] == spec_dec(ms % 1000)[i - 2]);
                }
            } else if ms % 1000 < 100 {
                if i >= 1 {
                    assert(f[i] == spec_dec(ms % 1000)[i - 1]);
                }
            }
        }
    }
    let d = q.len() as int;
    assert(t[d] == '.');
    assert(t.take(d) =~= q);
    assert(t.skip(d + 1) =~= f);
    assert(is_mantissa(t));
    assert(t[0] == q[0]);
    assert(is_digit(t[0]));
    assert(strip_sign(t) == t);
}

} // verus!
