//! Byte-level text primitives: whitespace, trimming, splitting, and decimal
//! integer parsing, each proved against a sequence-level model.

use vstd::prelude::*;

verus! {

/// ASCII whitespace: tab, line feed, vertical tab, form feed, carriage
/// return, space.
pub open spec fn spec_is_ws(c: u8) -> bool {
    c == 9 || c == 10 || c == 11 || c == 12 || c == 13 || c == 32
}

/// Recognises the ASCII whitespace bytes.
pub fn is_ws(c: u8) -> (r: bool)
    ensures
        r == spec_is_ws(c),
{
    c == 9 || c == 10 || c == 11 || c == 12 || c == 13 || c == 32
}

/// A byte sequence with its leading whitespace removed.
pub open spec fn ltrim(s: Seq<u8>) -> Seq<u8>
    decreases s.len(),
{
    if s.len() > 0 && spec_is_ws(s[0]) {
        ltrim(s.drop_first())
    } else {
        s
    }
}

/// A byte sequence with its trailing whitespace removed.
pub open spec fn rtrim(s: Seq<u8>) -> Seq<u8>
    decreases s.len(),
{
    if s.len() > 0 && spec_is_ws(s.last()) {
        rtrim(s.drop_last())
    } else {
        s
    }
}

/// A byte sequence with whitespace removed from both ends.
pub open spec fn spec_trim(s: Seq<u8>) -> Seq<u8> {
    rtrim(ltrim(s))
}

/// Copies `s` with surrounding whitespace removed.
pub fn trim_bytes(s: &Vec<u8>) -> (r: Vec<u8>)
    ensures
        r@ == spec_trim(s@),
{
    let mut a: usize = 0;
    assert(s@.subrange(0, s@.len() as int) =~= s@);
    while a < s.len() && is_ws(s[a])
        invariant
            a <= s.len(),
            ltrim(s@) == ltrim(s@.subrange(a as int, s@.len() as int)),
        decreases s.len() - a,
    {
        assert(s@.subrange(a as int, s@.len() as int).drop_first() =~= s@.subrange(
            a as int + 1,
            s@.len() as int,
        ));
        a = a + 1;
    }
    assert(ltrim(s@) =~= s@.subrange(a as int, s@.len() as int));
    let mut b: usize = s.len();
    while b > a && is_ws(s[b - 1])
        invariant
            a <= b <= s.len(),
            rtrim(s@.subrange(a as int, s@.len() as int)) == rtrim(
                s@.subrange(a as int, b as int),
            ),
        decreases b,
    {
        assert(s@.subrange(a as int, b as int).drop_last() =~= s@.subrange(
            a as int,
            b as int - 1,
        ));
        b = b - 1;
    }
    assert(rtrim(s@.subrange(a as int, b as int)) =~= s@.subrange(a as int, b as int));
    let mut r: Vec<u8> = Vec::new();
    let mut k: usize = a;
    while k < b
        invariant
            a <= k <= b <= s.len(),
            r@ =~= s@.subrange(a as int, k as int),
        decreases b - k,
    {
        r.push(s[k]);
        k = k + 1;
    }
    assert(r@ =~= s@.subrange(a as int, b as int));
    r
}

/// The fields of `s[i..]` separated by delimiter `d`, given the bytes of the
/// current field accumulated so far. Empty fields are kept.
pub open spec fn split_acc(s: Seq<u8>, d: u8, i: int, cur: Seq<u8>) -> Seq<Seq<u8>>
    decreases s.len() - i,
{
    if i < 0 || i >= s.len() {
        seq![cur]
    } else if s[i] == d {
        seq![cur] + split_acc(s, d, i + 1, seq![])
    } else {
        split_acc(s, d, i + 1, cur.push(s[i]))
    }
}

/// The fields of `s` separated by delimiter `d`; there is always at least one
/// field, and empty fields are kept.
pub open spec fn spec_split(s: Seq<u8>, d: u8) -> Seq<Seq<u8>> {
    split_acc(s, d, 0, seq![])
}

/// Splits `s` on the delimiter `d`, keeping empty fields.
pub fn split_bytes(s: &Vec<u8>, d: u8) -> (r: Vec<Vec<u8>>)
    ensures
        r@.map_values(|f: Vec<u8>| f@) == spec_split(s@, d),
        r@.len() >= 1,
{
    let mut out: Vec<Vec<u8>> = Vec::new();
    let mut cur: Vec<u8> = Vec::new();
    let mut i: usize = 0;
    assert(out@.map_values(|f: Vec<u8>| f@) + split_acc(s@, d, 0, cur@) =~= spec_split(s@, d));
    while i < s.len()
        invariant
            i <= s.len(),
            spec_split(s@, d) == out@.map_values(|f: Vec<u8>| f@) + split_acc(
                s@,
                d,
                i as int,
                cur@,
            ),
        decreases s.len() - i,
    {
        if s[i] == d {
            let ghost old_out = out@;
            let ghost old_cur = cur@;
            out.push(cur);
            cur = Vec::new();
            assert(out@.map_values(|f: Vec<u8>| f@) =~= old_out.map_values(|f: Vec<u8>| f@)
                + seq![old_cur]);
            assert(out@.map_values(|f: Vec<u8>| f@) + split_acc(s@, d, i + 1, cur@)
                =~= old_out.map_values(|f: Vec<u8>| f@) + (seq![old_cur] + split_acc(
                s@,
                d,
                i + 1,
                seq![],
            )));
        } else {
            cur.push(s[i]);
        }
        i = i + 1;
    }
    let ghost old_out = out@;
    let ghost old_cur = cur@;
    out.push(cur);
    assert(out@.map_values(|f: Vec<u8>| f@) =~= old_out.map_values(|f: Vec<u8>| f@)
        + seq![old_cur]);
    out
}

/// The whitespace-separated tokens of `s[i..]`, given the bytes of the token
/// accumulated so far. No token is empty.
pub open spec fn ws_acc(s: Seq<u8>, i: int, cur: Seq<u8>) -> Seq<Seq<u8>>
    decreases s.len() - i,
{
    if i < 0 || i >= s.len() {
        if cur.len() == 0 {
            seq![]
        } else {
            seq![cur]
        }
    } else if spec_is_ws(s[i]) {
        if cur.len() == 0 {
            ws_acc(s, i + 1, seq![])
        } else {
            seq![cur] + ws_acc(s, i + 1, seq![])
        }
    } else {
        ws_acc(s, i + 1, cur.push(s[i]))
    }
}

/// The whitespace-separated tokens of `s`.
pub open spec fn spec_ws_tokens(s: Seq<u8>) -> Seq<Seq<u8>> {
    ws_acc(s, 0, seq![])
}

/// Splits `s` into whitespace-separated tokens, none of them empty.
pub fn ws_tokens(s: &Vec<u8>) -> (r: Vec<Vec<u8>>)
    ensures
        r@.map_values(|f: Vec<u8>| f@) == spec_ws_tokens(s@),
{
    let mut out: Vec<Vec<u8>> = Vec::new();
    let mut cur: Vec<u8> = Vec::new();
    let mut i: usize = 0;
    assert(out@.map_values(|f: Vec<u8>| f@) + ws_acc(s@, 0, cur@) =~= spec_ws_tokens(s@));
    while i < s.len()
        invariant
            i <= s.len(),
            spec_ws_tokens(s@) == out@.map_values(|f: Vec<u8>| f@) + ws_acc(s@, i as int, cur@),
        decreases s.len() - i,
    {
        if is_ws(s[i]) {
            if cur.len() > 0 {
                let ghost old_out = out@;
                let ghost old_cur = cur@;
                out.push(cur);
                cur = Vec::new();
                assert(cur@ =~= seq![]);
                assert(out@.map_values(|f: Vec<u8>| f@) =~= old_out.map_values(|f: Vec<u8>| f@)
                    + seq![old_cur]);
                assert(out@.map_values(|f: Vec<u8>| f@) + ws_acc(s@, i + 1, cur@)
                    =~= old_out.map_values(|f: Vec<u8>| f@) + (seq![old_cur] + ws_acc(
                    s@,
                    i + 1,
                    seq![],
                )));
            } else {
                assert(cur@ =~= seq![]);
            }
        } else {
            cur.push(s[i]);
        }
        i = i + 1;
    }
    if cur.len() > 0 {
        let ghost old_out = out@;
        let ghost old_cur = cur@;
        out.push(cur);
        assert(out@.map_values(|f: Vec<u8>| f@) =~= old_out.map_values(|f: Vec<u8>| f@)
            + seq![old_cur]);
    } else {
        assert(out@.map_values(|f: Vec<u8>| f@) + ws_acc(s@, s@.len() as int, cur@)
            =~= out@.map_values(|f: Vec<u8>| f@));
    }
    out
}

/// An ASCII decimal digit.
pub open spec fn is_digit(c: u8) -> bool {
    48 <= c && c <= 57
}

/// Every byte of `s` is an ASCII decimal digit.
pub open spec fn all_digits(s: Seq<u8>) -> bool {
    forall|i: int| 0 <= i < s.len() ==> is_digit(s[i])
}

/// The value of a sequence of decimal digits, most significant first.
pub open spec fn dec_val(s: Seq<u8>) -> nat
    decreases s.len(),
{
    if s.len() == 0 {
        0
    } else {
        dec_val(s.drop_last()) * 10 + (s.last() - 48) as nat
    }
}

/// The unsigned integer denoted by `s`: an optional leading plus sign, then
/// one or more decimal digits, whose value fits in `usize`. This is the set
/// of strings the standard library accepts for an unsigned integer.
pub open spec fn spec_parse_usize(s: Seq<u8>) -> Option<usize> {
    let t = if s.len() > 0 && s[0] == 43 {
        s.drop_first()
    } else {
        s
    };
    if t.len() == 0 || !all_digits(t) || dec_val(t) > usize::MAX {
        None
    } else {
        Some(dec_val(t) as usize)
    }
}

/// Parses an unsigned decimal integer (optional leading plus sign), failing
/// on an empty digit string, a non-digit byte, or overflow.
pub fn parse_usize(s: &Vec<u8>) -> (r: Option<usize>)
    ensures
        r == spec_parse_usize(s@),
{
    let start: usize = if s.len() > 0 && s[0] == 43 {
        1
    } else {
        0
    };
    let ghost t = if s@.len() > 0 && s@[0] == 43 {
        s@.drop_first()
    } else {
        s@
    };
    assert(t =~= s@.subrange(start as int, s@.len() as int));
    if s.len() == start {
        return None;
    }
    let mut val: usize = 0;
    let mut overflow: bool = false;
    let mut i: usize = start;
    assert(t.take(0) =~= Seq::<u8>::empty());
    while i < s.len()
        invariant
            start <= i <= s.len(),
            start < s.len(),
            t == s@.subrange(start as int, s@.len() as int),
            all_digits(t.take(i - start)),
            !overflow ==> val == dec_val(t.take(i - start)),
            overflow ==> dec_val(t.take(i - start)) > usize::MAX,
        decreases s.len() - i,
    {
        let c = s[i];
        if !(48 <= c && c <= 57) {
            assert(!is_digit(t[i - start]));
            return None;
        }
        let d = (c - 48) as usize;
        let ghost k = i - start;
        assert(t.take(k + 1).drop_last() =~= t.take(k));
        assert(t.take(k + 1).last() == t[k]);
        if !overflow {
            if val <= (usize::MAX - d) / 10 {
                assert(val * 10 + d <= usize::MAX) by {
                    let q = (usize::MAX - d) / 10;
                    assert(q * 10 + (usize::MAX - d) % 10 == usize::MAX - d);
                    assert(val * 10 <= q * 10) by (nonlinear_arith)
                        requires
                            0 <= val <= q,
                    ;
                };
                val = val * 10 + d;
            } else {
                assert(val * 10 + d > usize::MAX) by {
                    let q = (usize::MAX - d) / 10;
                    assert(q * 10 + (usize::MAX - d) % 10 == usize::MAX - d);
                    assert(val * 10 >= (q + 1) * 10) by (nonlinear_arith)
                        requires
                            val >= q + 1,
                    ;
                };
                overflow = true;
            }
        } else {
            assert(dec_val(t.take(k + 1)) > usize::MAX) by {
                assert(dec_val(t.take(k)) * 10 >= dec_val(t.take(k))) by (nonlinear_arith)
                    requires
                        dec_val(t.take(k)) >= 0,
                ;
            };
        }
        i = i + 1;
    }
    assert(t.take(s@.len() - start) =~= t);
    if overflow {
        None
    } else {
        Some(val)
    }
}

} // verus!
