//! Battery gauge: which power supply to read, and what its sysfs
//! `capacity` and `status` texts mean.

use vstd::prelude::*;
use crate::text::{chars_of, trim, trim_range, push_str};

verus! {

/// A battery found under the power-supply class directory.
pub struct Battery {
    /// Its sysfs directory.
    pub path: String,
}

pub open spec fn is_ascii_digit(c: char) -> bool {
    '0' <= c && c <= '9'
}

/// The value of a string of ASCII digits.
pub open spec fn digit_chars_value(s: Seq<char>) -> int
    decreases s.len(),
{
    if s.len() == 0 {
        0
    } else {
        digit_chars_value(s.drop_last()) * 10 + (s.last() as int - '0' as int)
    }
}

/// The digits of an unsigned number: `s` without one leading `+`.
pub open spec fn unsigned_digits(s: Seq<char>) -> Seq<char> {
    if s.len() > 0 && s[0] == '+' {
        s.skip(1)
    } else {
        s
    }
}

pub open spec fn all_ascii_digits(d: Seq<char>) -> bool {
    forall|i: int| 0 <= i < d.len() ==> is_ascii_digit(#[trigger] d[i])
}

/// `s` read as a `u8` (`str::parse::<u8>`): an optional `+`, at least one
/// digit, nothing else, at most 255.
pub open spec fn parse_u8(s: Seq<char>) -> Option<u8> {
    let d = unsigned_digits(s);
    if d.len() > 0 && all_ascii_digits(d) && digit_chars_value(d) <= 255 {
        Some(digit_chars_value(d) as u8)
    } else {
        None
    }
}

/// What a battery reading is: the capacity percentage (at most 100) and
/// whether the status says it is charging. No reading without a valid
/// capacity.
pub open spec fn reading(capacity: Seq<char>, status: Option<Seq<char>>) -> Option<(u8, bool)> {
    match parse_u8(trim(capacity)) {
        Some(cap) => Some(
            (
                if cap < 100 { cap } else { 100u8 },
                match status {
                    Some(st) => trim(st) == seq!['C', 'h', 'a', 'r', 'g', 'i', 'n', 'g'],
                    None => false,
                },
            ),
        ),
        None => None,
    }
}

proof fn lemma_digits_nonneg(s: Seq<char>)
    requires
        forall|i: int| 0 <= i < s.len() ==> is_ascii_digit(#[trigger] s[i]),
    ensures
        digit_chars_value(s) >= 0,
    decreases s.len(),
{
    if s.len() > 0 {
        lemma_digits_nonneg(s.drop_last());
    }
}

/// `v[lo..hi]` read as a `u8`.
fn parse_u8_range(v: &Vec<char>, lo: usize, hi: usize) -> (r: Option<u8>)
    requires
        lo <= hi <= v@.len(),
    ensures
        r == parse_u8(v@.subrange(lo as int, hi as int)),
{
    let ghost s = v@.subrange(lo as int, hi as int);
    let start = if lo < hi && v[lo] == '+' { lo + 1 } else { lo };
    let ghost d = v@.subrange(start as int, hi as int);
    assert(d =~= unsigned_digits(s));
    if start == hi {
        return None;
    }
    let mut acc: u32 = 0;
    let mut i = start;
    while i < hi
        invariant
            start <= i <= hi <= v@.len(),
            start < hi,
            d == v@.subrange(start as int, hi as int),
            s == v@.subrange(lo as int, hi as int),
            lo <= start,
            d == unsigned_digits(s),
            forall|k: int| 0 <= k < i - start ==> is_ascii_digit(#[trigger] d[k]),
            acc == digit_chars_value(d.take(i - start)),
            acc <= 255,
        decreases hi - i,
    {
        let c = v[i];
        if !('0' <= c && c <= '9') {
            assert(d[i - start] == c);
            assert(!is_ascii_digit(d[i - start]));
            assert(!all_ascii_digits(d));
            return None;
        }
        let ghost p = d.take(i - start);
        let ghost q = d.take(i - start + 1);
        assert(q.drop_last() =~= p);
        let na = acc * 10 + (c as u32 - '0' as u32);
        if na > 255 {
            // Appending digits only grows the value.
            proof {
                assert(d[i - start] == c);
                assert forall|k: int| 0 <= k < i - start + 1 implies is_ascii_digit(#[trigger] d[k]) by {
                    if k < i - start {
                    } else {
                        assert(d[k] == c);
                    }
                }
                assert(digit_chars_value(q) == acc * 10 + (c as int - '0' as int));
                lemma_value_grows(d, i - start + 1);
            }
            return None;
        }
        acc = na;
        i += 1;
    }
    assert(d.take(hi - start) =~= d);
    Some(acc as u8)
}

/// The value of a digit string is at least that of any prefix.
proof fn lemma_value_grows(d: Seq<char>, k: int)
    requires
        0 <= k <= d.len(),
        forall|i: int| 0 <= i < d.len() ==> is_ascii_digit(#[trigger] d[i]) || i >= k,
        forall|i: int| 0 <= i < k ==> is_ascii_digit(#[trigger] d[i]),
    ensures
        (forall|i: int| 0 <= i < d.len() ==> is_ascii_digit(#[trigger] d[i])) ==> digit_chars_value(
            d,
        ) >= digit_chars_value(d.take(k)),
    decreases d.len() - k,
{
    if (forall|i: int| 0 <= i < d.len() ==> is_ascii_digit(#[trigger] d[i])) {
        if k < d.len() {
            lemma_value_grows(d, k + 1);
            assert(d.take(k + 1).drop_last() =~= d.take(k));
            lemma_digits_nonneg(d.take(k));
        } else {
            assert(d.take(k) =~= d);
        }
    }
}

/// Whether `v[lo..hi]` spells "Charging".
fn is_charging(v: &Vec<char>, lo: usize, hi: usize) -> (b: bool)
    requires
        lo <= hi <= v@.len(),
    ensures
        b == (v@.subrange(lo as int, hi as int) == seq!['C', 'h', 'a', 'r', 'g', 'i', 'n', 'g']),
{
    let ghost s = v@.subrange(lo as int, hi as int);
    let ghost w = seq!['C', 'h', 'a', 'r', 'g', 'i', 'n', 'g'];
    if hi - lo != 8 {
        assert(s.len() != w.len());
        return false;
    }
    let ok = v[lo] == 'C' && v[lo + 1] == 'h' && v[lo + 2] == 'a' && v[lo + 3] == 'r' && v[lo + 4]
        == 'g' && v[lo + 5] == 'i' && v[lo + 6] == 'n' && v[lo + 7] == 'g';
    if ok {
        assert(s =~= w);
    } else {
        assert(s != w) by {
            if s == w {
                assert(s[0] == w[0] && s[1] == w[1] && s[2] == w[2] && s[3] == w[3] && s[4] == w[4]
                    && s[5] == w[5] && s[6] == w[6] && s[7] == w[7]);
            }
        }
    }
    ok
}

/// The sysfs directory of the power supply called `name`, when that is a
/// battery (its name starts with `BAT`).
pub fn battery_dir(name: &str) -> (r: Option<String>)
    ensures
        r is Some <==> (name@.len() >= 3 && name@[0] == 'B' && name@[1] == 'A' && name@[2] == 'T'),
        r matches Some(p) ==> p@ == "/sys/class/power_supply/"@ + name@,
{
    let v = chars_of(name);
    if v.len() >= 3 && v[0] == 'B' && v[1] == 'A' && v[2] == 'T' {
        let mut p = String::from_str("/sys/class/power_supply/");
        push_str(&mut p, name);
        Some(p)
    } else {
        None
    }
}

impl Battery {
    /// The file holding the charge percentage.
    pub fn capacity_file(&self) -> (p: String)
        ensures
            p@ == self.path@ + "/capacity"@,
    {
        let mut p = self.path.clone();
        push_str(&mut p, "/capacity");
        p
    }

    /// The file holding the charging status.
    pub fn status_file(&self) -> (p: String)
        ensures
            p@ == self.path@ + "/status"@,
    {
        let mut p = self.path.clone();
        push_str(&mut p, "/status");
        p
    }

    /// The battery whose sysfs directory is `path`.
    pub fn at(path: String) -> (b: Battery)
        ensures
            b.path == path,
    {
        Battery { path }
    }

    /// Returns (capacity_percent, charging) from the texts of the `capacity`
    /// and `status` files (`status` is `None` when it cannot be read).
    pub fn parse_reading(capacity: &str, status: Option<&str>) -> (r: Option<(u8, bool)>)
        ensures
            r == reading(
                capacity@,
                match status {
                    Some(s) => Some(s@),
                    None => None,
                },
            ),
    {
        let v = chars_of(capacity);
        let (a, b) = trim_range(&v, 0, v.len());
        assert(v@.subrange(0, v@.len() as int) =~= v@);
        let cap = match parse_u8_range(&v, a, b) {
            Some(c) => c,
            None => return None,
        };
        let charging = match status {
            Some(st) => {
                let w = chars_of(st);
                let (c0, c1) = trim_range(&w, 0, w.len());
                assert(w@.subrange(0, w@.len() as int) =~= w@);
                is_charging(&w, c0, c1)
            },
            None => false,
        };
        Some((if cap < 100 { cap } else { 100 }, charging))
    }
}

} // verus!
