//! Incremental input parser: decodes key and mouse escape sequences from the
//! raw byte stream of the controlling terminal.

use vstd::prelude::*;
use crate::numparse::{parse_i64, parse_i64_range, trim_ws, trim_ws_range, field, field_range_start};

verus! {

/// One decoded input event.
#[derive(Debug, Clone, Copy, PartialEq, Eq, Structural)]
pub enum Event {
    /// A raw byte to forward to the focused session (includes control
    /// characters and UTF-8 bytes).
    Byte(u8),
    /// Alt + a byte (ESC prefix followed by the byte).
    AltByte(u8),
    /// A lone Escape press.
    Esc,
    /// Alt+Tab: switch sessions.
    AltTab,
    Up,
    Down,
    Left,
    Right,
    Home,
    End,
    PageUp,
    PageDown,
    Insert,
    Delete,
    BackTab,
    F(u8),
    MousePress { col: u16, row: u16 },
    MouseDrag { col: u16, row: u16 },
    MouseRelease { col: u16, row: u16 },
    WheelUp { col: u16, row: u16 },
    WheelDown { col: u16, row: u16 },
    /// A well-formed control sequence that is of no interest; it is consumed
    /// so the stream does not stall.
    Drop,
}

/// The incremental decoder: bytes not yet decodable wait in `pending`.
pub struct Parser {
    pub pending: Vec<u8>,
    /// A lone ESC was seen and we are waiting to see whether more bytes follow
    /// (the user may have typed Escape as a key).
    pub lone_esc: bool,
}

/// Bytes that may stand between `ESC [` and the final byte of a CSI sequence.
pub open spec fn is_param_byte(b: u8) -> bool {
    0x20 <= b && b < 0x40
}

/// Index of the final byte of the CSI sequence whose parameters start at
/// `from`: the first index at or after `from` that is not a parameter byte
/// (the length of `buf` when there is none).
pub open spec fn csi_end(buf: Seq<u8>, from: int) -> int
    decreases buf.len() - from,
{
    if from < 0 || from >= buf.len() || !is_param_byte(buf[from]) {
        from
    } else {
        csi_end(buf, from + 1)
    }
}

/// Length of the UTF-8 sequence that the lead byte `b` announces.
pub open spec fn utf8_width(b: u8) -> nat {
    if b < 0x80 {
        1
    } else if b >= 0xF0 {
        4
    } else if b >= 0xE0 {
        3
    } else {
        2
    }
}

/// The key of `ESC O <f>` (SS3), if `f` is one we know.
pub open spec fn ss3_event(f: u8) -> Option<Event> {
    if f == 0x41 {
        Some(Event::Up)
    } else if f == 0x42 {
        Some(Event::Down)
    } else if f == 0x43 {
        Some(Event::Right)
    } else if f == 0x44 {
        Some(Event::Left)
    } else if f == 0x48 {
        Some(Event::Home)
    } else if f == 0x46 {
        Some(Event::End)
    } else if f == 0x50 {
        Some(Event::F(1))
    } else if f == 0x51 {
        Some(Event::F(2))
    } else if f == 0x52 {
        Some(Event::F(3))
    } else if f == 0x53 {
        Some(Event::F(4))
    } else {
        None
    }
}

/// The key of `ESC [ n ~`.
pub open spec fn tilde_event(n: i64) -> Event {
    if n == 1 || n == 7 {
        Event::Home
    } else if n == 4 || n == 8 {
        Event::End
    } else if n == 5 {
        Event::PageUp
    } else if n == 6 {
        Event::PageDown
    } else if n == 2 {
        Event::Insert
    } else if n == 3 {
        Event::Delete
    } else if n == 11 {
        Event::F(1)
    } else if n == 12 {
        Event::F(2)
    } else if n == 13 {
        Event::F(3)
    } else if n == 14 {
        Event::F(4)
    } else if n == 15 {
        Event::F(5)
    } else if n == 17 {
        Event::F(6)
    } else if n == 18 {
        Event::F(7)
    } else if n == 19 {
        Event::F(8)
    } else if n == 20 {
        Event::F(9)
    } else if n == 21 {
        Event::F(10)
    } else if n == 23 {
        Event::F(11)
    } else if n == 24 {
        Event::F(12)
    } else {
        Event::Drop
    }
}

/// The key of a (non-mouse) CSI sequence with first parameter `n` and final
/// byte `f`.
pub open spec fn csi_key_event(n: i64, f: u8) -> Event {
    if f == 0x41 {
        Event::Up
    } else if f == 0x42 {
        Event::Down
    } else if f == 0x43 {
        Event::Right
    } else if f == 0x44 {
        Event::Left
    } else if f == 0x48 {
        Event::Home
    } else if f == 0x46 {
        Event::End
    } else if f == 0x5a {
        Event::BackTab
    } else if f == 0x7e {
        tilde_event(n)
    } else {
        Event::Drop
    }
}

/// The first `;`-separated parameter as a number; text that is not a number
/// counts as 0.
pub open spec fn first_param(params: Seq<u8>) -> i64 {
    match parse_i64(trim_ws(field(params, 0).unwrap())) {
        Some(v) => v,
        None => 0,
    }
}

/// A 1-based terminal coordinate turned 0-based (saturating at the bottom
/// of `i64`), then taken as a `u16` with wrap-around.
pub open spec fn coord(v: i64) -> u16 {
    (if v == i64::MIN { v } else { (v - 1) as i64 }) as u16
}

/// The event of an SGR mouse report `ESC [ < btn ; col ; row <f>` whose text
/// after `<` is `s`, or `None` when the three numbers are not there.
pub open spec fn mouse_event(s: Seq<u8>, f: u8) -> Option<Event> {
    match (field(s, 0), field(s, 1), field(s, 2)) {
        (Some(a), Some(b), Some(c)) => match (parse_i64(a), parse_i64(b), parse_i64(c)) {
            (Some(btn), Some(x), Some(y)) => {
                let col = coord(x);
                let row = coord(y);
                Some(
                    if btn == 64 {
                        Event::WheelUp { col, row }
                    } else if btn == 65 {
                        Event::WheelDown { col, row }
                    } else if f == 0x6d || (btn & 3i64) == 3i64 {
                        Event::MouseRelease { col, row }
                    } else if (btn & 32i64) != 0i64 {
                        Event::MouseDrag { col, row }
                    } else {
                        Event::MousePress { col, row }
                    },
                )
            },
            _ => None,
        },
        _ => None,
    }
}

/// The event of a complete CSI sequence `buf[0..=end]` (with `buf[0..2]` being
/// `ESC [` and `buf[end]` its final byte).
pub open spec fn csi_event(buf: Seq<u8>, end: int) -> Event {
    let params = buf.subrange(2, end);
    let f = buf[end];
    if params.len() > 0 && params[0] == 0x3c {
        match mouse_event(params.skip(1), f) {
            Some(e) => e,
            None => Event::Drop,
        }
    } else {
        csi_key_event(first_param(params), f)
    }
}

/// What the decoder makes of the front of a non-empty buffer.
pub enum Step {
    /// Nothing can be decoded until more bytes arrive.
    Wait,
    /// The buffer is exactly one ESC byte.
    LoneEsc,
    /// These events, consuming that many bytes.
    Emit(Seq<Event>, nat),
}

/// One decoding step on a non-empty buffer.
#[verifier::opaque]
pub open spec fn step(buf: Seq<u8>) -> Step {
    let b = buf[0];
    if b == 0x1b {
        if buf.len() == 1 {
            Step::LoneEsc
        } else if buf[1] == 0x5b {
            let e = csi_end(buf, 2);
            if e >= buf.len() || buf[e] < 0x40 {
                Step::Wait
            } else {
                Step::Emit(seq![csi_event(buf, e)], (e + 1) as nat)
            }
        } else if buf[1] == 0x4f {
            if buf.len() < 3 {
                Step::Wait
            } else {
                match ss3_event(buf[2]) {
                    Some(ev) => Step::Emit(seq![ev], 3),
                    None => Step::Emit(seq![Event::Drop], 3),
                }
            }
        } else if buf[1] == 0x09 {
            Step::Emit(seq![Event::AltTab], 2)
        } else {
            Step::Emit(seq![Event::AltByte(buf[1])], 2)
        }
    } else if b < 0x20 || b == 0x7f {
        Step::Emit(seq![Event::Byte(b)], 1)
    } else {
        let w = utf8_width(b);
        if buf.len() < w {
            Step::Wait
        } else {
            Step::Emit(Seq::new(w, |i: int| Event::Byte(buf[i])), w)
        }
    }
}

/// Every step that emits consumes at least one byte and no more than there are.
pub proof fn lemma_step_consumes(buf: Seq<u8>)
    requires
        buf.len() > 0,
    ensures
        step(buf) matches Step::Emit(_, n) ==> 0 < n <= buf.len(),
{
    reveal(step);
    if buf[0] == 0x1b && buf.len() > 1 && buf[1] == 0x5b {
        lemma_csi_end_bounds(buf, 2);
    }
}

pub proof fn lemma_csi_end_bounds(buf: Seq<u8>, from: int)
    requires
        0 <= from,
    ensures
        from <= csi_end(buf, from),
        csi_end(buf, from) <= buf.len() || csi_end(buf, from) == from,
        csi_end(buf, from) < buf.len() ==> !is_param_byte(buf[csi_end(buf, from)]),
        forall|k: int| from <= k < csi_end(buf, from) ==> is_param_byte(#[trigger] buf[k]),
    decreases buf.len() - from,
{
    if from < buf.len() && is_param_byte(buf[from]) {
        lemma_csi_end_bounds(buf, from + 1);
    }
}

/// Decoding a whole buffer: the events produced, the bytes left waiting and
/// the new lone-ESC flag.
pub open spec fn drain_spec(buf: Seq<u8>, lone: bool) -> (Seq<Event>, Seq<u8>, bool)
    decreases buf.len(),
{
    if buf.len() == 0 {
        (Seq::empty(), buf, lone)
    } else {
        match step(buf) {
            Step::Wait => (Seq::empty(), buf, lone),
            Step::LoneEsc => if lone {
                (seq![Event::Esc], Seq::empty(), false)
            } else {
                (Seq::empty(), buf, true)
            },
            Step::Emit(evs, n) => if 0 < n <= buf.len() {
                let r = drain_spec(buf.skip(n as int), lone);
                (evs + r.0, r.1, r.2)
            } else {
                (Seq::empty(), buf, lone)
            },
        }
    }
}

/// Result of one executable decoding step.
enum StepOut {
    Wait,
    LoneEsc,
    One(Event, usize),
    Text(usize),
}

fn utf8_len(b: u8) -> (r: usize)
    ensures
        r == utf8_width(b),
{
    if b < 0x80 {
        1
    } else if b >= 0xF0 {
        4
    } else if b >= 0xE0 {
        3
    } else {
        2
    }
}

fn parse_ss3(f: u8) -> (r: Option<Event>)
    ensures
        r == ss3_event(f),
{
    if f == 0x41 {
        Some(Event::Up)
    } else if f == 0x42 {
        Some(Event::Down)
    } else if f == 0x43 {
        Some(Event::Right)
    } else if f == 0x44 {
        Some(Event::Left)
    } else if f == 0x48 {
        Some(Event::Home)
    } else if f == 0x46 {
        Some(Event::End)
    } else if f == 0x50 {
        Some(Event::F(1))
    } else if f == 0x51 {
        Some(Event::F(2))
    } else if f == 0x52 {
        Some(Event::F(3))
    } else if f == 0x53 {
        Some(Event::F(4))
    } else {
        None
    }
}

fn tilde_key(n: i64) -> (r: Event)
    ensures
        r == tilde_event(n),
{
    match n {
        1 | 7 => Event::Home,
        4 | 8 => Event::End,
        5 => Event::PageUp,
        6 => Event::PageDown,
        2 => Event::Insert,
        3 => Event::Delete,
        11 => Event::F(1),
        12 => Event::F(2),
        13 => Event::F(3),
        14 => Event::F(4),
        15 => Event::F(5),
        17 => Event::F(6),
        18 => Event::F(7),
        19 => Event::F(8),
        20 => Event::F(9),
        21 => Event::F(10),
        23 => Event::F(11),
        24 => Event::F(12),
        _ => Event::Drop,
    }
}

fn csi_key(n: i64, f: u8) -> (r: Event)
    ensures
        r == csi_key_event(n, f),
{
    if f == 0x41 {
        Event::Up
    } else if f == 0x42 {
        Event::Down
    } else if f == 0x43 {
        Event::Right
    } else if f == 0x44 {
        Event::Left
    } else if f == 0x48 {
        Event::Home
    } else if f == 0x46 {
        Event::End
    } else if f == 0x5a {
        Event::BackTab
    } else if f == 0x7e {
        tilde_key(n)
    } else {
        Event::Drop
    }
}

fn coord_of(v: i64) -> (r: u16)
    ensures
        r == coord(v),
{
    let w = if v == i64::MIN { v } else { v - 1 };
    w as u16
}

/// Decode the SGR mouse report whose text after `<` is `buf[lo..hi]`.
fn parse_mouse(buf: &Vec<u8>, lo: usize, hi: usize, finalb: u8) -> (r: Option<Event>)
    requires
        lo <= hi <= buf@.len(),
    ensures
        r == mouse_event(buf@.subrange(lo as int, hi as int), finalb),
{
    let ghost s = buf@.subrange(lo as int, hi as int);
    let (a0, a1, more_a) = field_range_start(buf, lo, hi, 0);
    if !more_a {
        return None;
    }
    let (b0, b1, more_b) = field_range_start(buf, lo, hi, 1);
    if !more_b {
        return None;
    }
    let (c0, c1, more_c) = field_range_start(buf, lo, hi, 2);
    if !more_c {
        return None;
    }
    let btn = match parse_i64_range(buf, a0, a1) {
        Some(v) => v,
        None => return None,
    };
    let x = match parse_i64_range(buf, b0, b1) {
        Some(v) => v,
        None => return None,
    };
    let y = match parse_i64_range(buf, c0, c1) {
        Some(v) => v,
        None => return None,
    };
    let col = coord_of(x);
    let row = coord_of(y);
    if btn == 64 || btn == 65 {
        return Some(
            if btn == 64 {
                Event::WheelUp { col, row }
            } else {
                Event::WheelDown { col, row }
            },
        );
    }
    if finalb == 0x6d || btn & 3 == 3 {
        return Some(Event::MouseRelease { col, row });
    }
    if btn & 32 != 0 {
        return Some(Event::MouseDrag { col, row });
    }
    Some(Event::MousePress { col, row })
}

impl Parser {
    /// A parser with nothing pending.
    pub fn new() -> (p: Parser)
        ensures
            p.pending@ == Seq::<u8>::empty(),
            !p.lone_esc,
    {
        Parser { pending: Vec::with_capacity(64), lone_esc: false }
    }

    /// Append freshly read bytes; any byte arriving cancels a pending lone ESC
    /// decision.
    pub fn push(&mut self, data: &[u8])
        ensures
            final(self).pending@ == old(self).pending@ + data@,
            !final(self).lone_esc,
    {
        if self.lone_esc {
            self.lone_esc = false;
        }
        self.pending.extend_from_slice(data);
    }

    /// Index of the CSI final byte for the sequence starting at `pos`.
    fn find_csi_end(buf: &Vec<u8>, pos: usize) -> (r: usize)
        requires
            pos + 2 <= buf@.len(),
        ensures
            r == pos + csi_end(buf@.skip(pos as int), 2),
            pos + 2 <= r <= buf@.len(),
    {
        let ghost s = buf@.skip(pos as int);
        let len = buf.len();
        let mut idx = pos + 2;
        while idx < buf.len() && buf[idx] >= 0x20 && buf[idx] < 0x40
            invariant
                pos + 2 <= idx <= buf@.len(),
                s == buf@.skip(pos as int),
                csi_end(s, (idx - pos) as int) == csi_end(s, 2),
            decreases buf@.len() - idx,
        {
            idx += 1;
        }
        idx
    }

    /// Decode the complete CSI sequence `buf[pos..=end]`.
    fn parse_csi(buf: &Vec<u8>, pos: usize, end: usize) -> (r: Event)
        requires
            pos + 2 <= end < buf@.len(),
        ensures
            r == csi_event(buf@.skip(pos as int), (end - pos) as int),
    {
        let ghost s = buf@.skip(pos as int);
        let ghost params = s.subrange(2, (end - pos) as int);
        assert(params =~= buf@.subrange(pos + 2, end as int));
        let finalb = buf[end];
        if end > pos + 2 && buf[pos + 2] == 0x3c {
            assert(params.skip(1) =~= buf@.subrange(pos + 3, end as int));
            match parse_mouse(buf, pos + 3, end, finalb) {
                Some(e) => e,
                None => Event::Drop,
            }
        } else {
            let (f0, f1, _) = field_range_start(buf, pos + 2, end, 0);
            let (t0, t1) = trim_ws_range(buf, f0, f1);
            let n = match parse_i64_range(buf, t0, t1) {
                Some(v) => v,
                None => 0,
            };
            csi_key(n, finalb)
        }
    }

    /// One decoding step at `pos` of the pending buffer.
    fn step_at(&self, pos: usize) -> (r: StepOut)
        requires
            pos < self.pending@.len(),
        ensures
            ({
                let s = self.pending@.skip(pos as int);
                match r {
                    StepOut::Wait => step(s) is Wait,
                    StepOut::LoneEsc => step(s) is LoneEsc,
                    StepOut::One(e, n) => step(s) == Step::Emit(seq![e], n as nat),
                    StepOut::Text(w) => step(s) == Step::Emit(
                        Seq::new(w as nat, |i: int| Event::Byte(s[i])),
                        w as nat,
                    ),
                }
            }),
    {
        reveal(step);
        let buf = &self.pending;
        let ghost s = buf@.skip(pos as int);
        let len = buf.len();
        let b = buf[pos];
        if b == 0x1b {
            if len - pos == 1 {
                return StepOut::LoneEsc;
            }
            let next = buf[pos + 1];
            if next == 0x5b {
                let end = Self::find_csi_end(buf, pos);
                if end >= len || buf[end] < 0x40 {
                    StepOut::Wait
                } else {
                    let e = Self::parse_csi(buf, pos, end);
                    StepOut::One(e, end - pos + 1)
                }
            } else if next == 0x4f {
                if len - pos < 3 {
                    StepOut::Wait
                } else {
                    match parse_ss3(buf[pos + 2]) {
                        Some(e) => StepOut::One(e, 3),
                        None => StepOut::One(Event::Drop, 3),
                    }
                }
            } else if next == 0x09 {
                StepOut::One(Event::AltTab, 2)
            } else {
                StepOut::One(Event::AltByte(next), 2)
            }
        } else if b < 0x20 || b == 0x7f {
            StepOut::One(Event::Byte(b), 1)
        } else {
            let w = utf8_len(b);
            if len - pos < w {
                StepOut::Wait
            } else {
                StepOut::Text(w)
            }
        }
    }

    /// Pull the events that can be decoded from the pending bytes.
    pub fn drain(&mut self) -> (ev: Vec<Event>)
        ensures
            drain_spec(old(self).pending@, old(self).lone_esc) == (
                ev@,
                final(self).pending@,
                final(self).lone_esc,
            ),
    {
        let mut ev: Vec<Event> = Vec::new();
        let mut pos: usize = 0;
        let mut lone_out = self.lone_esc;
        let plen = self.pending.len();
        let ghost buf0 = self.pending@;
        let ghost lone0 = self.lone_esc;
        let ghost total = drain_spec(buf0, lone0);
        assert(buf0.skip(0) =~= buf0);
        loop
            invariant_except_break
                lone_out == lone0,
            invariant
                self.pending@ == buf0,
                buf0 == old(self).pending@,
                lone0 == old(self).lone_esc,
                plen == buf0.len(),
                self.lone_esc == lone0,
                total == drain_spec(buf0, lone0),
                pos <= buf0.len(),
                total.0 == ev@ + drain_spec(buf0.skip(pos as int), lone0).0,
                total.1 == drain_spec(buf0.skip(pos as int), lone0).1,
                total.2 == drain_spec(buf0.skip(pos as int), lone0).2,
            ensures
                self.pending@ == buf0,
                pos <= buf0.len(),
                total.0 == ev@,
                total.1 == buf0.skip(pos as int),
                total.2 == lone_out,
            decreases buf0.len() - pos,
        {
            let ghost s = buf0.skip(pos as int);
            if pos == self.pending.len() {
                assert(s.len() == 0);
                assert(ev@ + Seq::<Event>::empty() =~= ev@);
                break;
            }
            proof {
                lemma_step_consumes(s);
            }
            match self.step_at(pos) {
                StepOut::Wait => {
                    assert(ev@ + Seq::<Event>::empty() =~= ev@);
                    break;
                },
                StepOut::LoneEsc => {
                    if self.lone_esc {
                        assert(drain_spec(s, lone0) == (seq![Event::Esc], Seq::<u8>::empty(), false));
                        self.pending.clear();
                        self.lone_esc = false;
                        ev.push(Event::Esc);
                        assert(total.0 =~= ev@);
                        assert(total.1 =~= self.pending@);
                        return ev;
                    } else {
                        lone_out = true;
                        assert(ev@ + Seq::<Event>::empty() =~= ev@);
                        break;
                    }
                },
                StepOut::One(e, n) => {
                    ev.push(e);
                    assert(s.skip(n as int) =~= buf0.skip((pos + n) as int));
                    pos = pos + n;
                },
                StepOut::Text(w) => {
                    let mut k: usize = 0;
                    let ghost ev0 = ev@;
                    while k < w
                        invariant
                            k <= w,
                            pos + w <= buf0.len(),
                            plen == buf0.len(),
                            self.pending@ == buf0,
                            ev@ == ev0 + Seq::new(k as nat, |i: int| Event::Byte(buf0[pos + i])),
                        decreases w - k,
                    {
                        ev.push(Event::Byte(self.pending[pos + k]));
                        assert(ev@ =~= ev0 + Seq::new((k + 1) as nat, |i: int| Event::Byte(buf0[pos + i])));
                        k += 1;
                    }
                    assert(Seq::new(w as nat, |i: int| Event::Byte(buf0[pos + i])) =~= Seq::new(
                        w as nat,
                        |i: int| Event::Byte(s[i]),
                    ));
                    assert(s.skip(w as int) =~= buf0.skip((pos + w) as int));
                    pos = pos + w;
                },
            }
        }
        // Keep the undecoded tail.
        let mut rest: Vec<u8> = Vec::new();
        let mut j = pos;
        while j < self.pending.len()
            invariant
                pos <= j <= buf0.len(),
                self.pending@ == buf0,
                rest@ =~= buf0.subrange(pos as int, j as int),
            decreases buf0.len() - j,
        {
            rest.push(self.pending[j]);
            j += 1;
        }
        assert(rest@ =~= buf0.skip(pos as int));
        self.pending = rest;
        self.lone_esc = lone_out;
        ev
    }
}

} // verus!
