//! What keys mean on the wire: the codes the decoder reads as function and
//! editing keys, and the bytes sent for a key, which the decoder reads back
//! as that same key.

use vstd::prelude::*;
use crate::input::{Event, Step, step, drain_spec, csi_end, csi_event, is_param_byte, first_param, csi_key_event, ss3_event};
use crate::keys::key_seq;
use crate::numparse::{all_digits, is_digit, digits_value, field, field_start, trim_ws, parse_int, sep_from, skip_ws, trim_end, is_ascii_ws};

verus! {

/// A CSI sequence: `ESC [`, parameter bytes `d`, final byte `f`.
pub open spec fn csi(d: Seq<u8>, f: u8) -> Seq<u8> {
    seq![0x1bu8, 0x5bu8] + d + seq![f]
}

proof fn lemma_csi_end_at(buf: Seq<u8>, i: int, e: int)
    requires
        0 <= i <= e < buf.len(),
        forall|k: int| i <= k < e ==> is_param_byte(#[trigger] buf[k]),
        !is_param_byte(buf[e]),
    ensures
        csi_end(buf, i) == e,
    decreases e - i,
{
    if i < e {
        lemma_csi_end_at(buf, i + 1, e);
    }
}

/// A buffer that one step decodes whole drains to just those events.
proof fn lemma_drain_whole(buf: Seq<u8>, evs: Seq<Event>)
    requires
        buf.len() > 0,
        step(buf) == Step::Emit(evs, buf.len()),
    ensures
        drain_spec(buf, false) == (evs, Seq::<u8>::empty(), false),
{
    assert(buf.skip(buf.len() as int) =~= Seq::<u8>::empty());
    assert(drain_spec(Seq::<u8>::empty(), false) == (Seq::<Event>::empty(), Seq::<u8>::empty(), false));
    assert(evs + Seq::<Event>::empty() =~= evs);
}

/// A complete CSI sequence whose parameters are digits (or none) drains to
/// the key of its first parameter and final byte.
proof fn lemma_csi_drains(d: Seq<u8>, f: u8)
    requires
        all_digits(d),
        f >= 0x40,
    ensures
        drain_spec(csi(d, f), false) == (seq![csi_key_event(first_param(d), f)], Seq::<u8>::empty(), false),
{
    let buf = csi(d, f);
    let e: int = d.len() as int + 2;
    assert forall|k: int| 2 <= k < e implies is_param_byte(#[trigger] buf[k]) by {
        assert(buf[k] == d[k - 2]);
        assert(is_digit(d[k - 2]));
    }
    assert(buf[e] == f);
    lemma_csi_end_at(buf, 2, e);
    reveal(step);
    assert(buf.subrange(2, e) =~= d);
    if d.len() > 0 {
        assert(is_digit(d[0]));
    }
    assert(csi_event(buf, e) == csi_key_event(first_param(d), f));
    lemma_drain_whole(buf, seq![csi_key_event(first_param(d), f)]);
}

/// `ESC O f` drains to its key, or to `Drop` when `f` names none.
proof fn lemma_ss3_drains(f: u8)
    ensures
        drain_spec(seq![0x1bu8, 0x4fu8, f], false) == (
            seq![
                match ss3_event(f) {
                    Some(e) => e,
                    None => Event::Drop,
                },
            ],
            Seq::<u8>::empty(),
            false,
        ),
{
    reveal(step);
    let e = match ss3_event(f) {
        Some(e) => e,
        None => Event::Drop,
    };
    lemma_drain_whole(seq![0x1bu8, 0x4fu8, f], seq![e]);
}

/// No parameters read as 0.
proof fn lemma_no_param()
    ensures
        first_param(Seq::<u8>::empty()) == 0,
{
    let d = Seq::<u8>::empty();
    assert(sep_from(d, 0) == 0);
    assert(field(d, 0) == Some(d.subrange(0, 0)));
    assert(d.subrange(0, 0) =~= d);
    assert(skip_ws(d, 0) == 0);
    assert(trim_end(d, 0, 0) == 0);
    assert(trim_ws(d) =~= d);
    assert(parse_int(d) is None);
}

/// A first parameter of one or two digits is their decimal value.
proof fn lemma_digit_param(d: Seq<u8>)
    requires
        1 <= d.len() <= 2,
        all_digits(d),
    ensures
        first_param(d) == digits_value(d),
        0 <= digits_value(d) <= 99,
        d.len() == 1 ==> digits_value(d) == d[0] - 0x30,
        d.len() == 2 ==> digits_value(d) == (d[0] - 0x30) * 10 + (d[1] - 0x30),
{
    assert(is_digit(d[0]));
    assert(!is_ascii_ws(d[0]));
    assert(sep_from(d, d.len() as int) == d.len());
    if d.len() == 2 {
        assert(is_digit(d[1]));
        assert(sep_from(d, 1) == 2);
    }
    assert(sep_from(d, 0) == d.len());
    assert(field(d, 0) == Some(d.subrange(0, d.len() as int)));
    assert(d.subrange(0, d.len() as int) =~= d);
    assert(skip_ws(d, 0) == 0);
    assert(!is_ascii_ws(d[d.len() - 1]));
    assert(trim_end(d, d.len() as int, 0) == d.len());
    assert(trim_ws(d) =~= d);
    let p = d.drop_last();
    assert(digits_value(Seq::<u8>::empty()) == 0);
    if d.len() == 2 {
        assert(p.drop_last() =~= Seq::<u8>::empty());
        assert(digits_value(p) == p.last() - 0x30);
        assert(p.last() == d[0]);
    } else {
        assert(p =~= Seq::<u8>::empty());
    }
    assert(parse_int(d) == Some(digits_value(d)));
}

/// `ESC [ n ~` with a code of one or two digits: each code means its own
/// key. 11..15 are F1..F5, 17..21 F6..F10, 23 and 24 F11 and F12; 1 and 7
/// Home, 4 and 8 End, 2 Insert, 3 Delete, 5 PageUp, 6 PageDown. The whole
/// sequence is consumed.
pub proof fn law_function_key_codes(d: Seq<u8>)
    requires
        1 <= d.len() <= 2,
        all_digits(d),
    ensures
        ({
            let n = digits_value(d);
            let got = drain_spec(csi(d, 0x7e), false);
            &&& got.1 == Seq::<u8>::empty()
            &&& !got.2
            &&& got.0.len() == 1
            &&& (11 <= n <= 15 ==> got.0[0] == Event::F((n - 10) as u8))
            &&& (17 <= n <= 21 ==> got.0[0] == Event::F((n - 11) as u8))
            &&& (23 <= n <= 24 ==> got.0[0] == Event::F((n - 12) as u8))
            &&& (n == 1 || n == 7 ==> got.0[0] == Event::Home)
            &&& (n == 4 || n == 8 ==> got.0[0] == Event::End)
            &&& (n == 2 ==> got.0[0] == Event::Insert)
            &&& (n == 3 ==> got.0[0] == Event::Delete)
            &&& (n == 5 ==> got.0[0] == Event::PageUp)
            &&& (n == 6 ==> got.0[0] == Event::PageDown)
        }),
{
    lemma_digit_param(d);
    lemma_csi_drains(d, 0x7e);
}

/// The bytes sent for each cursor key: `ESC [` (`ESC O` in application
/// cursor mode) and the key's own letter: Up A, Down B, Right C, Left D,
/// Home H, End F.
pub proof fn law_cursor_key_bytes(appcur: bool)
    ensures
        ({
            let intro: Seq<u8> = if appcur { seq![0x1bu8, 0x4fu8] } else { seq![0x1bu8, 0x5bu8] };
            &&& key_seq(appcur, Event::Up) == intro.push(0x41u8)
            &&& key_seq(appcur, Event::Down) == intro.push(0x42u8)
            &&& key_seq(appcur, Event::Right) == intro.push(0x43u8)
            &&& key_seq(appcur, Event::Left) == intro.push(0x44u8)
            &&& key_seq(appcur, Event::Home) == intro.push(0x48u8)
            &&& key_seq(appcur, Event::End) == intro.push(0x46u8)
        }),
{
    let intro: Seq<u8> = if appcur { seq![0x1bu8, 0x4fu8] } else { seq![0x1bu8, 0x5bu8] };
    assert(key_seq(appcur, Event::Up) =~= intro.push(0x41u8));
    assert(key_seq(appcur, Event::Down) =~= intro.push(0x42u8));
    assert(key_seq(appcur, Event::Right) =~= intro.push(0x43u8));
    assert(key_seq(appcur, Event::Left) =~= intro.push(0x44u8));
    assert(key_seq(appcur, Event::Home) =~= intro.push(0x48u8));
    assert(key_seq(appcur, Event::End) =~= intro.push(0x46u8));
}

/// Which keys are sent as bytes of their own.
pub open spec fn is_sent_key(ev: Event) -> bool {
    ||| ev is Up || ev is Down || ev is Right || ev is Left || ev is Home || ev is End
    ||| ev is Insert || ev is Delete || ev is PageUp || ev is PageDown || ev is BackTab
    ||| (ev matches Event::F(n) && 1 <= n <= 12)
}

/// A cursor key sent with letter `f` is read back as itself.
proof fn lemma_cursor_read_back(appcur: bool, ev: Event, f: u8)
    requires
        f >= 0x40,
        ss3_event(f) == Some(ev),
        csi_key_event(0, f) == ev,
        key_seq(appcur, ev) == (if appcur { seq![0x1bu8, 0x4fu8, f] } else { seq![0x1bu8, 0x5bu8, f] }),
    ensures
        drain_spec(key_seq(appcur, ev), false) == (seq![ev], Seq::<u8>::empty(), false),
{
    let none = Seq::<u8>::empty();
    if appcur {
        lemma_ss3_drains(f);
    } else {
        assert(key_seq(appcur, ev) =~= csi(none, f));
        lemma_no_param();
        lemma_csi_drains(none, f);
    }
}

/// What is sent for a key is read back as that key: decoding the bytes
/// sent for a cursor, editing, paging or function key (F1..F12), in either
/// cursor mode, gives exactly that key and leaves nothing over.
pub proof fn law_keys_read_back(appcur: bool, ev: Event)
    requires
        is_sent_key(ev),
    ensures
        drain_spec(key_seq(appcur, ev), false) == (seq![ev], Seq::<u8>::empty(), false),
{
    let none = Seq::<u8>::empty();
    match ev {
        Event::Up => lemma_cursor_read_back(appcur, ev, 0x41),
        Event::Down => lemma_cursor_read_back(appcur, ev, 0x42),
        Event::Right => lemma_cursor_read_back(appcur, ev, 0x43),
        Event::Left => lemma_cursor_read_back(appcur, ev, 0x44),
        Event::Home => lemma_cursor_read_back(appcur, ev, 0x48),
        Event::End => lemma_cursor_read_back(appcur, ev, 0x46),
        Event::BackTab => {
            assert(key_seq(appcur, ev) =~= csi(none, 0x5a));
            lemma_no_param();
            lemma_csi_drains(none, 0x5a);
        },
        Event::F(n) => {
            if n <= 4 {
                let f: u8 = (0x4f + n) as u8;
                assert(key_seq(appcur, ev) =~= seq![0x1bu8, 0x4fu8, f]);
                lemma_ss3_drains(f);
            } else {
                let d: Seq<u8> = if n == 5 {
                    seq![0x31u8, 0x35u8]
                } else if n == 6 {
                    seq![0x31u8, 0x37u8]
                } else if n == 7 {
                    seq![0x31u8, 0x38u8]
                } else if n == 8 {
                    seq![0x31u8, 0x39u8]
                } else if n == 9 {
                    seq![0x32u8, 0x30u8]
                } else if n == 10 {
                    seq![0x32u8, 0x31u8]
                } else if n == 11 {
                    seq![0x32u8, 0x33u8]
                } else {
                    seq![0x32u8, 0x34u8]
                };
                assert(key_seq(appcur, ev) =~= csi(d, 0x7e));
                law_function_key_codes(d);
                lemma_digit_param(d);
                assert(drain_spec(key_seq(appcur, ev), false).0 =~= seq![ev]);
            }
        },
        _ => {
            let d: Seq<u8> = match ev {
                Event::Insert => seq![0x32u8],
                Event::Delete => seq![0x33u8],
                Event::PageUp => seq![0x35u8],
                _ => seq![0x36u8],
            };
            assert(key_seq(appcur, ev) =~= csi(d, 0x7e));
            law_function_key_codes(d);
            lemma_digit_param(d);
            assert(drain_spec(key_seq(appcur, ev), false).0 =~= seq![ev]);
        },
    }
}

} // verus!
