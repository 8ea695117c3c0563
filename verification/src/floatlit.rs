//! The grammar of floating-point literals as the standard library's
//! float-from-string conversion accepts them: an optional sign, then either a
//! case-insensitive special word (`inf`, `infinity`, `nan`) or a number. A
//! number is a mantissa (digits with at most one dot and at least one digit)
//! followed by an optional exponent (`e` or `E`, an optional sign, digits).
//! Conversion of a literal to a machine float never fails for any other
//! reason, so syntactic validity is exactly convertibility.

use vstd::prelude::*;
use crate::text::{is_digit, all_digits};

verus! {

/// An ASCII plus or minus sign.
pub open spec fn is_sign(c: u8) -> bool {
    c == 43 || c == 45
}

/// An ASCII `e` or `E`, starting an exponent part.
pub open spec fn is_exp_char(c: u8) -> bool {
    c == 101 || c == 69
}

/// ASCII uppercase letters folded to lowercase; all else unchanged.
pub open spec fn to_lower(c: u8) -> u8 {
    if 65 <= c && c <= 90 {
        (c + 32) as u8
    } else {
        c
    }
}

/// `s` without one leading sign byte, if any.
pub open spec fn strip_sign(s: Seq<u8>) -> Seq<u8> {
    if s.len() > 0 && is_sign(s[0]) {
        s.drop_first()
    } else {
        s
    }
}

/// `t` spells `w` up to ASCII case.
pub open spec fn matches_ci(t: Seq<u8>, w: Seq<u8>) -> bool {
    t.len() == w.len() && (forall|i: int| 0 <= i < t.len() ==> to_lower(t[i]) == w[i])
}

/// The word `inf`.
pub open spec fn word_inf() -> Seq<u8> {
    seq![105u8, 110, 102]
}

/// The word `infinity`.
pub open spec fn word_infinity() -> Seq<u8> {
    seq![105u8, 110, 102, 105, 110, 105, 116, 121]
}

/// The word `nan`.
pub open spec fn word_nan() -> Seq<u8> {
    seq![110u8, 97, 110]
}

/// `t` is one of the case-insensitive special words.
pub open spec fn is_special(t: Seq<u8>) -> bool {
    matches_ci(t, word_inf()) || matches_ci(t, word_infinity()) || matches_ci(t, word_nan())
}

/// A mantissa: every byte a digit or a dot, at most one dot, at least one
/// digit.
pub open spec fn is_mantissa(m: Seq<u8>) -> bool {
    &&& exists|i: int| 0 <= i < m.len() && is_digit(m[i])
    &&& forall|i: int| 0 <= i < m.len() ==> is_digit(m[i]) || m[i] == 46
    &&& forall|i: int, j: int|
        0 <= i < j < m.len() ==> !(m[i] == 46 && m[j] == 46)
}

/// An exponent tail (what follows the `e`): an optional sign, then one or
/// more digits.
pub open spec fn is_exp_tail(x: Seq<u8>) -> bool {
    strip_sign(x).len() > 0 && all_digits(strip_sign(x))
}

/// A number: a mantissa, optionally followed by an exponent part.
pub open spec fn is_number(t: Seq<u8>) -> bool {
    ||| (forall|i: int| 0 <= i < t.len() ==> !is_exp_char(t[i])) && is_mantissa(t)
    ||| exists|k: int|
        0 <= k < t.len() && is_exp_char(t[k]) && is_mantissa(t.take(k)) && is_exp_tail(
            t.skip(k + 1),
        )
}

/// `s` is a valid floating-point literal.
pub open spec fn is_float_lit(s: Seq<u8>) -> bool {
    is_special(strip_sign(s)) || is_number(strip_sign(s))
}

/// Folds one ASCII byte to lowercase.
fn lower_byte(c: u8) -> (r: u8)
    ensures
        r == to_lower(c),
{
    if 65 <= c && c <= 90 {
        c + 32
    } else {
        c
    }
}

/// Decides whether `s[a..b]` spells a special word, up to case.
fn check_special(s: &Vec<u8>, a: usize, b: usize) -> (r: bool)
    requires
        a <= b <= s@.len(),
    ensures
        r == is_special(s@.subrange(a as int, b as int)),
{
    let ghost t = s@.subrange(a as int, b as int);
    let n = b - a;
    if n == 3 {
        let c0 = lower_byte(s[a]);
        let c1 = lower_byte(s[a + 1]);
        let c2 = lower_byte(s[a + 2]);
        let inf = c0 == 105 && c1 == 110 && c2 == 102;
        let nan = c0 == 110 && c1 == 97 && c2 == 110;
        assert(inf == matches_ci(t, word_inf()));
        assert(nan == matches_ci(t, word_nan()));
        assert(!matches_ci(t, word_infinity()));
        inf || nan
    } else if n == 8 {
        let r = lower_byte(s[a]) == 105 && lower_byte(s[a + 1]) == 110 && lower_byte(s[a + 2])
            == 102 && lower_byte(s[a + 3]) == 105 && lower_byte(s[a + 4]) == 110 && lower_byte(
            s[a + 5],
        ) == 105 && lower_byte(s[a + 6]) == 116 && lower_byte(s[a + 7]) == 121;
        assert(r == matches_ci(t, word_infinity()));
        assert(!matches_ci(t, word_inf()) && !matches_ci(t, word_nan()));
        r
    } else {
        assert(!is_special(t));
        false
    }
}

/// Decides whether `s[a..b]` is a mantissa.
fn check_mantissa(s: &Vec<u8>, a: usize, b: usize) -> (r: bool)
    requires
        a <= b <= s@.len(),
    ensures
        r == is_mantissa(s@.subrange(a as int, b as int)),
{
    let ghost m = s@.subrange(a as int, b as int);
    let mut seen_digit: bool = false;
    let mut seen_dot: bool = false;
    let mut i: usize = a;
    while i < b
        invariant
            a <= i <= b <= s@.len(),
            m == s@.subrange(a as int, b as int),
            forall|p: int| 0 <= p < i - a ==> is_digit(m[p]) || m[p] == 46,
            seen_digit <==> exists|p: int| 0 <= p < i - a && is_digit(m[p]),
            seen_dot <==> exists|p: int| 0 <= p < i - a && m[p] == 46,
            forall|p: int, q: int| 0 <= p < q < i - a ==> !(m[p] == 46 && m[q] == 46),
        decreases b - i,
    {
        let c = s[i];
        assert(m[i - a] == c);
        if 48 <= c && c <= 57 {
            seen_digit = true;
        } else if c == 46 {
            if seen_dot {
                assert(!is_mantissa(m));
                return false;
            }
            seen_dot = true;
        } else {
            assert(!(is_digit(m[i - a]) || m[i - a] == 46));
            assert(!is_mantissa(m));
            return false;
        }
        i = i + 1;
    }
    if seen_digit {
        assert(is_mantissa(m));
    } else {
        assert(!is_mantissa(m));
    }
    seen_digit
}

/// Decides whether `s[a..b]` is an exponent tail.
fn check_exp_tail(s: &Vec<u8>, a: usize, b: usize) -> (r: bool)
    requires
        a <= b <= s@.len(),
    ensures
        r == is_exp_tail(s@.subrange(a as int, b as int)),
{
    let ghost x = s@.subrange(a as int, b as int);
    let a2: usize = if a < b && (s[a] == 43 || s[a] == 45) {
        a + 1
    } else {
        a
    };
    let ghost y = strip_sign(x);
    assert(y =~= s@.subrange(a2 as int, b as int));
    if a2 == b {
        assert(y.len() == 0);
        return false;
    }
    let mut i: usize = a2;
    while i < b
        invariant
            a2 <= i <= b <= s@.len(),
            y == s@.subrange(a2 as int, b as int),
            forall|p: int| 0 <= p < i - a2 ==> is_digit(y[p]),
        decreases b - i,
    {
        let c = s[i];
        assert(y[i - a2] == c);
        if !(48 <= c && c <= 57) {
            assert(!is_digit(y[i - a2]));
            return false;
        }
        i = i + 1;
    }
    assert(all_digits(y));
    true
}

/// Decides whether `s[a..b]` is a number (mantissa with optional exponent).
fn check_number(s: &Vec<u8>, a: usize, b: usize) -> (r: bool)
    requires
        a <= b <= s@.len(),
    ensures
        r == is_number(s@.subrange(a as int, b as int)),
{
    let ghost t = s@.subrange(a as int, b as int);
    let mut e: usize = a;
    while e < b && !(s[e] == 101 || s[e] == 69)
        invariant
            a <= e <= b <= s@.len(),
            t == s@.subrange(a as int, b as int),
            forall|p: int| 0 <= p < e - a ==> !is_exp_char(t[p]),
        decreases b - e,
    {
        assert(t[e - a] == s@[e as int]);
        e = e + 1;
    }
    if e == b {
        // no exponent character anywhere
        let r = check_mantissa(s, a, b);
        assert(s@.subrange(a as int, b as int) =~= t);
        if !r {
            assert(!is_number(t)) by {
                assert forall|k: int|
                    0 <= k < t.len() && is_exp_char(t[k]) implies !(is_mantissa(t.take(k))
                    && is_exp_tail(t.skip(k + 1))) by {
                    assert(!is_exp_char(t[k]));
                }
            };
        }
        r
    } else {
        let ghost kk = e - a;
        assert(is_exp_char(t[kk]));
        assert(t.take(kk) =~= s@.subrange(a as int, e as int));
        assert(t.skip(kk + 1) =~= s@.subrange(e as int + 1, b as int));
        let rm = check_mantissa(s, a, e);
        let rx = check_exp_tail(s, e + 1, b);
        if rm && rx {
            assert(is_number(t));
            true
        } else {
            assert(!is_number(t)) by {
                assert(is_exp_char(t[kk]));
                assert forall|k: int|
                    0 <= k < t.len() && is_exp_char(t[k]) implies !(is_mantissa(t.take(k))
                    && is_exp_tail(t.skip(k + 1))) by {
                    if k < kk {
                        assert(!is_exp_char(t[k]));
                    } else if k == kk {
                    } else {
                        assert(t.take(k)[kk] == t[kk]);
                        assert(!(is_digit(t.take(k)[kk]) || t.take(k)[kk] == 46));
                        assert(!is_mantissa(t.take(k)));
                    }
                }
            };
            false
        }
    }
}

/// Decides whether the whole of `s` is a valid floating-point literal.
pub fn check_float_lit(s: &Vec<u8>) -> (r: bool)
    ensures
        r == is_float_lit(s@),
{
    let a: usize = if s.len() > 0 && (s[0] == 43 || s[0] == 45) {
        1
    } else {
        0
    };
    let ghost t = strip_sign(s@);
    assert(t =~= s@.subrange(a as int, s@.len() as int));
    let sp = check_special(s, a, s.len());
    if sp {
        return true;
    }
    check_number(s, a, s.len())
}

} // verus!
