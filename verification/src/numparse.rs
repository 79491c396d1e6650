//! Byte-level helpers for the numeric parameters of terminal reports:
//! `;`-separated fields, ASCII whitespace trimming and signed decimal
//! numbers read the way `str::parse::<i64>` reads them.

use vstd::prelude::*;

verus! {

/// ASCII whitespace, which is all that `str::trim` can meet among ASCII bytes.
pub open spec fn is_ascii_ws(b: u8) -> bool {
    b == 0x20 || (0x09 <= b && b <= 0x0d)
}

pub open spec fn is_digit(b: u8) -> bool {
    0x30 <= b && b <= 0x39
}

/// First index at or after `i` holding a separator, or the length.
pub open spec fn sep_from(s: Seq<u8>, i: int) -> int
    decreases s.len() - i,
{
    if i < 0 || i >= s.len() || s[i] == 0x3b {
        i
    } else {
        sep_from(s, i + 1)
    }
}

/// Where field `k` of `s` begins, if `s` has that many fields.
pub open spec fn field_start(s: Seq<u8>, k: nat) -> Option<int>
    decreases k,
{
    if k == 0 {
        Some(0)
    } else {
        match field_start(s, (k - 1) as nat) {
            Some(st) => {
                let e = sep_from(s, st);
                if e >= s.len() {
                    None
                } else {
                    Some(e + 1)
                }
            },
            None => None,
        }
    }
}

/// Field `k` of `s` split at separators (like `split(';').nth(k)`).
pub open spec fn field(s: Seq<u8>, k: nat) -> Option<Seq<u8>> {
    match field_start(s, k) {
        Some(st) => Some(s.subrange(st, sep_from(s, st))),
        None => None,
    }
}

/// First index at or after `i` that is not whitespace, or the length.
pub open spec fn skip_ws(s: Seq<u8>, i: int) -> int
    decreases s.len() - i,
{
    if i < 0 || i >= s.len() || !is_ascii_ws(s[i]) {
        i
    } else {
        skip_ws(s, i + 1)
    }
}

/// The end index once trailing whitespace down to `lo` is dropped.
pub open spec fn trim_end(s: Seq<u8>, j: int, lo: int) -> int
    decreases j - lo,
{
    if j <= lo || j > s.len() || !is_ascii_ws(s[j - 1]) {
        j
    } else {
        trim_end(s, j - 1, lo)
    }
}

/// `s` without leading and trailing whitespace.
pub open spec fn trim_ws(s: Seq<u8>) -> Seq<u8> {
    let a = skip_ws(s, 0);
    s.subrange(a, trim_end(s, s.len() as int, a))
}

pub open spec fn all_digits(s: Seq<u8>) -> bool {
    forall|i: int| 0 <= i < s.len() ==> is_digit(#[trigger] s[i])
}

/// The value of a string of decimal digits.
pub open spec fn digits_value(s: Seq<u8>) -> int
    decreases s.len(),
{
    if s.len() == 0 {
        0
    } else {
        digits_value(s.drop_last()) * 10 + (s.last() - 0x30)
    }
}

/// The integer that `s` spells: an optional sign and at least one digit.
pub open spec fn parse_int(s: Seq<u8>) -> Option<int> {
    if s.len() > 0 && (s[0] == 0x2b || s[0] == 0x2d) {
        let d = s.skip(1);
        if d.len() > 0 && all_digits(d) {
            Some(if s[0] == 0x2d { -digits_value(d) } else { digits_value(d) })
        } else {
            None
        }
    } else if s.len() > 0 && all_digits(s) {
        Some(digits_value(s))
    } else {
        None
    }
}

/// `s` read as an `i64`: `None` when it is no number or does not fit.
pub open spec fn parse_i64(s: Seq<u8>) -> Option<i64> {
    match parse_int(s) {
        Some(v) => if i64::MIN <= v && v <= i64::MAX {
            Some(v as i64)
        } else {
            None
        },
        None => None,
    }
}

proof fn lemma_digits_nonneg(s: Seq<u8>)
    requires
        all_digits(s),
    ensures
        digits_value(s) >= 0,
    decreases s.len(),
{
    if s.len() > 0 {
        assert(all_digits(s.drop_last()));
        lemma_digits_nonneg(s.drop_last());
    }
}

proof fn lemma_sep_from_bounds(s: Seq<u8>, i: int)
    requires
        0 <= i <= s.len(),
    ensures
        i <= sep_from(s, i) <= s.len(),
        sep_from(s, i) < s.len() ==> s[sep_from(s, i)] == 0x3b,
    decreases s.len() - i,
{
    if i < s.len() && s[i] != 0x3b {
        lemma_sep_from_bounds(s, i + 1);
    }
}

proof fn lemma_field_start_bounds(s: Seq<u8>, k: nat)
    ensures
        field_start(s, k) matches Some(st) ==> 0 <= st <= s.len(),
    decreases k,
{
    if k > 0 {
        lemma_field_start_bounds(s, (k - 1) as nat);
        if let Some(st) = field_start(s, (k - 1) as nat) {
            lemma_sep_from_bounds(s, st);
        }
    }
}

/// Absolute index of the first separator at or after `from` in `buf[lo..hi]`.
fn find_sep(buf: &Vec<u8>, lo: usize, hi: usize, from: usize) -> (r: usize)
    requires
        lo <= from <= hi <= buf@.len(),
    ensures
        from <= r <= hi,
        r - lo == sep_from(buf@.subrange(lo as int, hi as int), from - lo),
{
    let ghost s = buf@.subrange(lo as int, hi as int);
    let mut i = from;
    while i < hi && buf[i] != 0x3b
        invariant
            lo <= from <= i <= hi <= buf@.len(),
            s == buf@.subrange(lo as int, hi as int),
            sep_from(s, i - lo) == sep_from(s, from - lo),
        decreases hi - i,
    {
        i += 1;
    }
    i
}

/// The bounds `[a, b)` of field `k` of `buf[lo..hi]`, and whether it exists.
pub fn field_range_start(buf: &Vec<u8>, lo: usize, hi: usize, k: usize) -> (r: (usize, usize, bool))
    requires
        lo <= hi <= buf@.len(),
    ensures
        r.2 <==> field(buf@.subrange(lo as int, hi as int), k as nat) is Some,
        r.2 ==> lo <= r.0 <= r.1 <= hi,
        r.2 ==> field(buf@.subrange(lo as int, hi as int), k as nat) == Some(
            buf@.subrange(r.0 as int, r.1 as int),
        ),
{
    let ghost s = buf@.subrange(lo as int, hi as int);
    let mut st = lo;
    let mut j: usize = 0;
    proof {
        lemma_sep_from_bounds(s, 0);
    }
    while j < k
        invariant
            j <= k,
            lo <= st <= hi <= buf@.len(),
            s == buf@.subrange(lo as int, hi as int),
            field_start(s, j as nat) == Some((st - lo) as int),
        decreases k - j,
    {
        let e = find_sep(buf, lo, hi, st);
        if e >= hi {
            // No field `j + 1`, hence none after it either.
            proof {
                assert(field_start(s, (j + 1) as nat) is None);
                lemma_no_field_after(s, (j + 1) as nat, k as nat);
            }
            return (lo, lo, false);
        }
        st = e + 1;
        j += 1;
    }
    let e = find_sep(buf, lo, hi, st);
    proof {
        lemma_sep_from_bounds(s, (st - lo) as int);
        assert(s.subrange((st - lo) as int, (e - lo) as int) =~= buf@.subrange(st as int, e as int));
    }
    (st, e, true)
}

proof fn lemma_no_field_after(s: Seq<u8>, j: nat, k: nat)
    requires
        j <= k,
        field_start(s, j) is None,
    ensures
        field_start(s, k) is None,
    decreases k - j,
{
    if j < k {
        lemma_no_field_after(s, j, (k - 1) as nat);
    }
}

/// Bounds of `buf[lo..hi]` with leading and trailing whitespace dropped.
pub fn trim_ws_range(buf: &Vec<u8>, lo: usize, hi: usize) -> (r: (usize, usize))
    requires
        lo <= hi <= buf@.len(),
    ensures
        lo <= r.0 <= r.1 <= hi,
        buf@.subrange(r.0 as int, r.1 as int) == trim_ws(buf@.subrange(lo as int, hi as int)),
{
    let ghost s = buf@.subrange(lo as int, hi as int);
    let mut a = lo;
    while a < hi && (buf[a] == 0x20 || (buf[a] >= 0x09 && buf[a] <= 0x0d))
        invariant
            lo <= a <= hi <= buf@.len(),
            s == buf@.subrange(lo as int, hi as int),
            skip_ws(s, a - lo) == skip_ws(s, 0),
        decreases hi - a,
    {
        a += 1;
    }
    let mut b = hi;
    while b > a && (buf[b - 1] == 0x20 || (buf[b - 1] >= 0x09 && buf[b - 1] <= 0x0d))
        invariant
            lo <= a <= b <= hi <= buf@.len(),
            s == buf@.subrange(lo as int, hi as int),
            skip_ws(s, 0) == a - lo,
            trim_end(s, b - lo, a - lo) == trim_end(s, s.len() as int, a - lo),
        decreases b - a,
    {
        b -= 1;
    }
    assert(s.subrange(a - lo, b - lo) =~= buf@.subrange(a as int, b as int));
    (a, b)
}

/// `buf[lo..hi]` read as an `i64`.
pub fn parse_i64_range(buf: &Vec<u8>, lo: usize, hi: usize) -> (r: Option<i64>)
    requires
        lo <= hi <= buf@.len(),
    ensures
        r == parse_i64(buf@.subrange(lo as int, hi as int)),
{
    let ghost s = buf@.subrange(lo as int, hi as int);
    if lo == hi {
        return None;
    }
    let neg = buf[lo] == 0x2d;
    let start = if buf[lo] == 0x2b || buf[lo] == 0x2d { lo + 1 } else { lo };
    let ghost d = buf@.subrange(start as int, hi as int);
    proof {
        if start == lo + 1 {
            assert(d =~= s.skip(1));
        } else {
            assert(d =~= s);
        }
    }
    if start == hi {
        return None;
    }
    // Values above 2^63 fit no i64 whatever the sign.
    let big_limit: u128 = 0x8000_0000_0000_0000;
    let mut acc: u128 = 0;
    let mut big = false;
    let mut i = start;
    while i < hi
        invariant
            start <= i <= hi <= buf@.len(),
            d == buf@.subrange(start as int, hi as int),
            s == buf@.subrange(lo as int, hi as int),
            s.len() > 0,
            neg == (s[0] == 0x2d),
            start == lo || start == lo + 1,
            start == lo + 1 ==> d == s.skip(1) && (s[0] == 0x2b || s[0] == 0x2d),
            start == lo ==> d == s && !(s[0] == 0x2b || s[0] == 0x2d),
            all_digits(d.take(i - start)),
            !big ==> acc as int == digits_value(d.take(i - start)) && acc <= big_limit,
            big ==> digits_value(d.take(i - start)) > big_limit,
            big_limit == 0x8000_0000_0000_0000u128,
        decreases hi - i,
    {
        let b = buf[i];
        if b < 0x30 || b > 0x39 {
            assert(!all_digits(d)) by {
                assert(d[i - start] == b);
            }
            if start != lo {
                assert(parse_int(s) is None);
            } else {
                assert(!all_digits(s));
                assert(parse_int(s) is None);
            }
            return None;
        }
        let ghost p = d.take(i - start);
        let ghost q = d.take(i - start + 1);
        assert(q.drop_last() =~= p);
        assert(all_digits(q)) by {
            assert forall|k: int| 0 <= k < q.len() implies is_digit(#[trigger] q[k]) by {
                if k < p.len() {
                    assert(q[k] == p[k]);
                }
            }
        }
        if !big {
            let na = acc * 10 + (b - 0x30) as u128;
            if na > big_limit {
                big = true;
            } else {
                acc = na;
            }
        } else {
            proof {
                lemma_digits_nonneg(p);
            }
        }
        i += 1;
    }
    assert(d.take(hi - start) =~= d);
    proof {
        lemma_digits_nonneg(d);
    }
    if big {
        return None;
    }
    if neg {
        if acc == big_limit {
            Some(i64::MIN)
        } else {
            Some(-(acc as i64))
        }
    } else {
        if acc >= big_limit {
            None
        } else {
            Some(acc as i64)
        }
    }
}

} // verus!
