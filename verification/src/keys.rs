//! How navigation and function keys become the input bytes a
//! terminal program expects.

use vstd::prelude::*;
use crate::input::Event;

verus! {

/// `ESC O <f>` in application cursor mode, `ESC [ <f>` otherwise.
pub open spec fn cursor_seq(appcur: bool, f: u8) -> Seq<u8> {
    if appcur {
        seq![0x1bu8, 0x4fu8, f]
    } else {
        seq![0x1bu8, 0x5bu8, f]
    }
}

/// `ESC [ <a> <b> ~`.
pub open spec fn tilde2(a: u8, b: u8) -> Seq<u8> {
    seq![0x1bu8, 0x5bu8, a, b, 0x7eu8]
}

/// The bytes for function key `n` (F1..F4 as SS3, the rest as `CSI n ~`;
/// anything past F11 sends F12).
pub open spec fn fkey_seq(n: u8) -> Seq<u8> {
    if n == 1 {
        seq![0x1bu8, 0x4fu8, 0x50u8]
    } else if n == 2 {
        seq![0x1bu8, 0x4fu8, 0x51u8]
    } else if n == 3 {
        seq![0x1bu8, 0x4fu8, 0x52u8]
    } else if n == 4 {
        seq![0x1bu8, 0x4fu8, 0x53u8]
    } else if n == 5 {
        tilde2(0x31, 0x35)
    } else if n == 6 {
        tilde2(0x31, 0x37)
    } else if n == 7 {
        tilde2(0x31, 0x38)
    } else if n == 8 {
        tilde2(0x31, 0x39)
    } else if n == 9 {
        tilde2(0x32, 0x30)
    } else if n == 10 {
        tilde2(0x32, 0x31)
    } else if n == 11 {
        tilde2(0x32, 0x33)
    } else {
        tilde2(0x32, 0x34)
    }
}

/// The bytes a key event sends to the focused program (`appcur`: the
/// program asked for application cursor keys). Events that are not keys
/// send nothing.
pub open spec fn key_seq(appcur: bool, ev: Event) -> Seq<u8> {
    match ev {
        Event::Up => cursor_seq(appcur, 0x41),
        Event::Down => cursor_seq(appcur, 0x42),
        Event::Right => cursor_seq(appcur, 0x43),
        Event::Left => cursor_seq(appcur, 0x44),
        Event::Home => cursor_seq(appcur, 0x48),
        Event::End => cursor_seq(appcur, 0x46),
        Event::Insert => seq![0x1bu8, 0x5bu8, 0x32u8, 0x7eu8],
        Event::Delete => seq![0x1bu8, 0x5bu8, 0x33u8, 0x7eu8],
        Event::BackTab => seq![0x1bu8, 0x5bu8, 0x5au8],
        Event::PageUp => seq![0x1bu8, 0x5bu8, 0x35u8, 0x7eu8],
        Event::PageDown => seq![0x1bu8, 0x5bu8, 0x36u8, 0x7eu8],
        Event::F(n) => fkey_seq(n),
        _ => Seq::empty(),
    }
}

fn cursor_bytes(appcur: bool, f: u8) -> (v: Vec<u8>)
    ensures
        v@ == cursor_seq(appcur, f),
{
    let mut v: Vec<u8> = Vec::new();
    v.push(0x1b);
    v.push(if appcur { 0x4f } else { 0x5b });
    v.push(f);
    assert(v@ =~= cursor_seq(appcur, f));
    v
}

fn bytes3(a: u8, b: u8, c: u8) -> (v: Vec<u8>)
    ensures
        v@ == seq![a, b, c],
{
    let mut v: Vec<u8> = Vec::new();
    v.push(a);
    v.push(b);
    v.push(c);
    assert(v@ =~= seq![a, b, c]);
    v
}

fn bytes4(a: u8, b: u8, c: u8, d: u8) -> (v: Vec<u8>)
    ensures
        v@ == seq![a, b, c, d],
{
    let mut v = bytes3(a, b, c);
    v.push(d);
    assert(v@ =~= seq![a, b, c, d]);
    v
}

fn tilde_bytes(a: u8, b: u8) -> (v: Vec<u8>)
    ensures
        v@ == tilde2(a, b),
{
    let mut v = bytes4(0x1b, 0x5b, a, b);
    v.push(0x7e);
    assert(v@ =~= tilde2(a, b));
    v
}

/// Encode navigation/function keys as terminal input bytes, honouring
/// the focused program's application cursor mode.
pub fn key_bytes(application_cursor: bool, ev: &Event) -> (v: Vec<u8>)
    ensures
        v@ == key_seq(application_cursor, *ev),
{
    let appcur = application_cursor;
    match ev {
        Event::Up => cursor_bytes(appcur, 0x41),
        Event::Down => cursor_bytes(appcur, 0x42),
        Event::Right => cursor_bytes(appcur, 0x43),
        Event::Left => cursor_bytes(appcur, 0x44),
        Event::Home => cursor_bytes(appcur, 0x48),
        Event::End => cursor_bytes(appcur, 0x46),
        Event::Insert => bytes4(0x1b, 0x5b, 0x32, 0x7e),
        Event::Delete => bytes4(0x1b, 0x5b, 0x33, 0x7e),
        Event::BackTab => bytes3(0x1b, 0x5b, 0x5a),
        Event::PageUp => bytes4(0x1b, 0x5b, 0x35, 0x7e),
        Event::PageDown => bytes4(0x1b, 0x5b, 0x36, 0x7e),
        Event::F(n) => match *n {
            1 => bytes3(0x1b, 0x4f, 0x50),
            2 => bytes3(0x1b, 0x4f, 0x51),
            3 => bytes3(0x1b, 0x4f, 0x52),
            4 => bytes3(0x1b, 0x4f, 0x53),
            5 => tilde_bytes(0x31, 0x35),
            6 => tilde_bytes(0x31, 0x37),
            7 => tilde_bytes(0x31, 0x38),
            8 => tilde_bytes(0x31, 0x39),
            9 => tilde_bytes(0x32, 0x30),
            10 => tilde_bytes(0x32, 0x31),
            11 => tilde_bytes(0x32, 0x33),
            _ => tilde_bytes(0x32, 0x34),
        },
        _ => Vec::new(),
    }
}

} // verus!
