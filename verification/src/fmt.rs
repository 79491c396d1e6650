//! Decimal rendering of numbers, as characters and as bytes.

use vstd::prelude::*;
use crate::text::push_char;

verus! {

/// The decimal digits of `n` (no leading zeros; "0" for zero).
pub open spec fn dec_chars(n: nat) -> Seq<char>
    decreases n,
{
    if n < 10 {
        seq![digit_char(n)]
    } else {
        dec_chars(n / 10).push(digit_char(n % 10))
    }
}

pub open spec fn digit_char(d: nat) -> char {
    if d == 0 {
        '0'
    } else if d == 1 {
        '1'
    } else if d == 2 {
        '2'
    } else if d == 3 {
        '3'
    } else if d == 4 {
        '4'
    } else if d == 5 {
        '5'
    } else if d == 6 {
        '6'
    } else if d == 7 {
        '7'
    } else if d == 8 {
        '8'
    } else {
        '9'
    }
}

/// The decimal digits of `n` as ASCII bytes.
pub open spec fn dec_bytes(n: nat) -> Seq<u8>
    decreases n,
{
    if n < 10 {
        seq![(0x30 + n) as u8]
    } else {
        dec_bytes(n / 10).push((0x30 + n % 10) as u8)
    }
}

fn digit_of(d: u64) -> (c: char)
    requires
        d < 10,
    ensures
        c == digit_char(d as nat),
{
    if d == 0 {
        '0'
    } else if d == 1 {
        '1'
    } else if d == 2 {
        '2'
    } else if d == 3 {
        '3'
    } else if d == 4 {
        '4'
    } else if d == 5 {
        '5'
    } else if d == 6 {
        '6'
    } else if d == 7 {
        '7'
    } else if d == 8 {
        '8'
    } else {
        '9'
    }
}

/// Append the decimal digits of `n` to `s`.
pub fn push_dec(s: &mut String, n: u64)
    ensures
        final(s)@ == old(s)@ + dec_chars(n as nat),
    decreases n,
{
    if n >= 10 {
        push_dec(s, n / 10);
    }
    push_char(s, digit_of(n % 10));
    assert(n >= 10 ==> dec_chars(n as nat) == dec_chars((n / 10) as nat).push(digit_char((n % 10) as nat)));
    assert(old(s)@ + dec_chars(n as nat) =~= final(s)@) by {
        if n >= 10 {
            assert(old(s)@ + dec_chars((n / 10) as nat).push(digit_char((n % 10) as nat)) =~= (old(s)@
                + dec_chars((n / 10) as nat)).push(digit_char((n % 10) as nat)));
        }
    }
}

/// Append the decimal digits of `n` to `v` as ASCII bytes.
pub fn push_dec_bytes(v: &mut Vec<u8>, n: u64)
    ensures
        final(v)@ == old(v)@ + dec_bytes(n as nat),
    decreases n,
{
    if n >= 10 {
        push_dec_bytes(v, n / 10);
    }
    v.push((0x30 + n % 10) as u8);
    assert(old(v)@ + dec_bytes(n as nat) =~= final(v)@) by {
        if n >= 10 {
            assert(old(v)@ + dec_bytes((n / 10) as nat).push((0x30 + n % 10) as u8) =~= (old(v)@
                + dec_bytes((n / 10) as nat)).push((0x30 + n % 10) as u8));
        }
    }
}

/// `n` in at least two digits, as `{:02}` writes it.
pub open spec fn two_digits(n: nat) -> Seq<char> {
    if n < 10 {
        seq!['0'] + dec_chars(n)
    } else {
        dec_chars(n)
    }
}

fn push_two_digits(s: &mut String, n: u32)
    ensures
        final(s)@ == old(s)@ + two_digits(n as nat),
{
    if n < 10 {
        push_char(s, '0');
    }
    push_dec(s, n as u64);
    assert(final(s)@ =~= old(s)@ + two_digits(n as nat));
}

/// The taskbar clock, `HH:MM:SS`, each part in at least two digits.
pub fn clock_text(hour: u32, min: u32, sec: u32) -> (t: String)
    ensures
        t@ == two_digits(hour as nat) + seq![':'] + two_digits(min as nat) + seq![':'] + two_digits(sec as nat),
{
    let mut t = String::new();
    push_two_digits(&mut t, hour);
    push_char(&mut t, ':');
    push_two_digits(&mut t, min);
    push_char(&mut t, ':');
    push_two_digits(&mut t, sec);
    assert(t@ =~= two_digits(hour as nat) + seq![':'] + two_digits(min as nat) + seq![':'] + two_digits(
        sec as nat,
    ));
    t
}

} // verus!
