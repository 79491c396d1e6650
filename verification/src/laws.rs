//! Properties of the library as a whole: decoding is incremental, plain
//! text passes through, an unchanged frame costs nothing to draw, and the
//! multiplexer's promises about shortcuts, scrolling, copy/paste and quitting.

use vstd::prelude::*;
use crate::input::{Event, Step, step, drain_spec, csi_end, csi_event, is_param_byte, lemma_step_consumes, lemma_csi_end_bounds};
use crate::screen::{CellV, frame_bytes, changed_upto, reset_bytes};
use crate::selection::Sel;
use crate::app::{
    AppV, Env, Tab, EffectV, on_event_v, copy_v, paste_v, paste_bytes, next_tab_v, request_quit_v, button_hit,
    close_active_v, msg_copied, msg_pasted, menu_move_v, menu_len_of, anchor_v, prune_v, keep_alive, spawned_v,
    spawned_cmd_v, open_menu_v, view_rows_of, lemma_keep_alive_len,
};
use crate::menu::EntryV;
use crate::grid::ScreenSnap;
use crate::taskbar::{
    bar_buttons, btn_area_end, button_width, shown_from, btn_col, bar_row, with_buttons, button_cells, button_body,
    button_name, tray_col, tray_text, overlay, run, spaces, start_text,
};

verus! {

// ---------------------------------------------------------------------
// Input decoding.

proof fn lemma_csi_end_extend(x: Seq<u8>, y: Seq<u8>, from: int)
    requires
        0 <= from,
        csi_end(x, from) < x.len(),
    ensures
        csi_end(x + y, from) == csi_end(x, from),
    decreases x.len() - from,
{
    if from < x.len() && is_param_byte(x[from]) {
        lemma_csi_end_extend(x, y, from + 1);
    }
}

/// A step that decodes something decodes the same with more bytes behind.
proof fn lemma_step_extend(x: Seq<u8>, y: Seq<u8>)
    requires
        x.len() > 0,
        step(x) is Emit,
    ensures
        step(x + y) == step(x),
{
    reveal(step);
    let b = x + y;
    assert(b[0] == x[0]);
    if x[0] == 0x1b {
        assert(b[1] == x[1]);
        if x[1] == 0x5b {
            let e = csi_end(x, 2);
            lemma_csi_end_bounds(x, 2);
            lemma_csi_end_extend(x, y, 2);
            assert(b[e] == x[e]);
            assert(b.subrange(2, e) =~= x.subrange(2, e));
            assert(csi_event(b, e) == csi_event(x, e));
        } else if x[1] == 0x4f {
            assert(b[2] == x[2]);
        }
    } else if !(x[0] < 0x20 || x[0] == 0x7f) {
        let w = crate::input::utf8_width(x[0]);
        assert(Seq::new(w, |i: int| Event::Byte(b[i])) =~= Seq::new(w, |i: int| Event::Byte(x[i])));
    }
}

/// Decoding is incremental: decoding `x`, then decoding what was left of it
/// with `y` appended, gives the events, leftover bytes and lone-ESC state
/// that decoding `x + y` in one go gives.
pub proof fn law_incremental_decoding(x: Seq<u8>, y: Seq<u8>)
    ensures
        ({
            let first = drain_spec(x, false);
            let second = drain_spec(first.1 + y, false);
            drain_spec(x + y, false) == (first.0 + second.0, second.1, second.2)
        }),
    decreases x.len(),
{
    let first = drain_spec(x, false);
    if x.len() == 0 {
        assert(x + y =~= y);
        assert(first.1 + y =~= y);
        assert(first.0 + drain_spec(y, false).0 =~= drain_spec(y, false).0);
    } else {
        lemma_step_consumes(x);
        match step(x) {
            Step::Emit(evs, n) => {
                lemma_step_extend(x, y);
                assert((x + y).skip(n as int) =~= x.skip(n as int) + y);
                law_incremental_decoding(x.skip(n as int), y);
                let rest = drain_spec(x.skip(n as int), false);
                let second = drain_spec(rest.1 + y, false);
                assert(evs + (rest.0 + second.0) =~= (evs + rest.0) + second.0);
            },
            _ => {
                assert(first.1 == x);
                assert(first.0 + drain_spec(x + y, false).0 =~= drain_spec(x + y, false).0);
            },
        }
    }
}

/// A complete SS3 sequence (`ESC O` and one more byte) never stalls the
/// decoder: it is decoded into its key, or dropped when it names none.
pub proof fn law_ss3_never_stalls(buf: Seq<u8>)
    requires
        buf.len() >= 3,
        buf[0] == 0x1b,
        buf[1] == 0x4f,
    ensures
        step(buf) == Step::Emit(
            seq![
                match crate::input::ss3_event(buf[2]) {
                    Some(e) => e,
                    None => Event::Drop,
                },
            ],
            3,
        ),
{
    reveal(step);
}

/// Printable ASCII is passed through byte for byte, with nothing left over.
pub proof fn law_plain_text_passes_through(s: Seq<u8>, lone: bool)
    requires
        forall|i: int| 0 <= i < s.len() ==> 0x20 <= #[trigger] s[i] && s[i] < 0x7f,
    ensures
        drain_spec(s, lone) == (s.map_values(|b: u8| Event::Byte(b)), Seq::<u8>::empty(), lone),
    decreases s.len(),
{
    if s.len() == 0 {
        assert(s.map_values(|b: u8| Event::Byte(b)) =~= Seq::<Event>::empty());
        assert(s =~= Seq::<u8>::empty());
    } else {
        reveal(step);
        assert(step(s) == Step::Emit(seq![Event::Byte(s[0])], 1)) by {
            assert(Seq::new(1, |i: int| Event::Byte(s[i])) =~= seq![Event::Byte(s[0])]);
        }
        let t = s.skip(1);
        assert forall|i: int| 0 <= i < t.len() implies 0x20 <= #[trigger] t[i] && t[i] < 0x7f by {
            assert(t[i] == s[i + 1]);
        }
        law_plain_text_passes_through(t, lone);
        assert(seq![Event::Byte(s[0])] + t.map_values(|b: u8| Event::Byte(b)) =~= s.map_values(
            |b: u8| Event::Byte(b),
        ));
    }
}

// ---------------------------------------------------------------------
// Rendering.

proof fn lemma_nothing_changed(v: Seq<CellV>, cols: int, k: int)
    ensures
        !changed_upto(v, v, cols, k),
    decreases k,
{
    if k > 0 {
        lemma_nothing_changed(v, cols, k - 1);
    }
}

/// Drawing a frame identical to the one on screen writes nothing.
pub proof fn law_unchanged_frame_writes_nothing(v: Seq<CellV>, rows: int, cols: int)
    ensures
        frame_bytes(v, v, rows, cols) == Seq::<u8>::empty(),
{
    lemma_nothing_changed(v, cols, rows);
}

/// A frame writes something exactly when a row changed, and then starts
/// from a known style (a reset, so that no colour left over from the last
/// frame leaks in) and leaves the terminal in the default style.
pub proof fn law_frame_resets_style(prev: Seq<CellV>, cur: Seq<CellV>, rows: int, cols: int)
    ensures
        (frame_bytes(prev, cur, rows, cols).len() > 0) == changed_upto(prev, cur, cols, rows),
        changed_upto(prev, cur, cols, rows) ==> {
            let f = frame_bytes(prev, cur, rows, cols);
            &&& f.take(4) == reset_bytes()
            &&& f.skip(f.len() - 4) == reset_bytes()
        },
{
    if changed_upto(prev, cur, cols, rows) {
        let f = frame_bytes(prev, cur, rows, cols);
        let mid = crate::screen::rows_upto(prev, cur, cols, rows);
        assert(f == reset_bytes() + mid + reset_bytes());
        assert(f.take(4) =~= reset_bytes());
        assert(f.skip(f.len() - 4) =~= reset_bytes());
    }
}

/// The taskbar's buttons lie left to right without overlapping, each close
/// marker just right of its button, and all of them left of the tray's
/// reserved columns.
pub proof fn law_buttons_ordered(cols: int, sv: Seq<(usize, Seq<char>)>, i: int, j: int)
    requires
        0 <= cols <= 65535,
        0 <= i < j < bar_buttons(cols, sv).len(),
    ensures
        ({
            let bs = bar_buttons(cols, sv);
            &&& bs[i].c0 <= bs[i].c1
            &&& bs[i].close == Some((bs[i].c1 + 1) as usize)
            &&& bs[i].c1 + 1 < bs[j].c0
        }),
        bar_buttons(cols, sv)[j].c1 + 2 <= btn_area_end(cols),
{
    let bw = button_width(cols, sv.len() as int);
    let end = btn_area_end(cols);
    lemma_shown_from_at_least(0, sv.len() as int, bw, end);
    lemma_shown_fit(0, sv.len() as int, bw, end, j);
    lemma_shown_fit(0, sv.len() as int, bw, end, i);
    assert(btn_col(i, bw) + bw + 1 <= btn_col(j, bw)) by (nonlinear_arith)
        requires
            i < j,
            bw >= 10,
    ;
    assert(btn_col(i, bw) >= 8) by (nonlinear_arith)
        requires
            i >= 0,
            bw >= 10,
    ;
}

proof fn lemma_shown_from_at_least(i: int, n: int, bw: int, end: int)
    ensures
        shown_from(i, n, bw, end) >= i,
    decreases n - i,
{
    if !(i >= n || btn_col(i, bw) + bw > end) {
        lemma_shown_from_at_least(i + 1, n, bw, end);
    }
}

/// Every button that is shown fits in the button area.
proof fn lemma_shown_fit(i: int, n: int, bw: int, end: int, j: int)
    requires
        0 <= i <= j < shown_from(i, n, bw, end),
    ensures
        btn_col(j, bw) + bw <= end,
    decreases n - i,
{
    if i < n && btn_col(i, bw) + bw <= end && i < j {
        lemma_shown_fit(i + 1, n, bw, end, j);
    }
}

/// The body of a button of width `bw` fills `bw - 1` columns.
proof fn lemma_button_body_len(label: Seq<char>, bw: int)
    requires
        bw >= 10,
    ensures
        button_body(label, bw).len() == bw - 1,
{
    let w = bw - 3;
    let name = button_name(label, w);
    assert(name.len() <= w);
    let t = seq![' '] + name;
    assert(t.len() <= bw - 2);
    assert(spaces(bw - 1 - t.len()).len() == bw - 1 - t.len());
}

/// What painting buttons `0..k` leaves in a body column of button `i`.
proof fn lemma_with_buttons_at(
    s: Seq<CellV>,
    sv: Seq<(usize, Seq<char>)>,
    active: usize,
    bw: int,
    k: int,
    i: int,
    j: int,
)
    requires
        bw >= 10,
        0 <= i < k <= sv.len(),
        btn_col(i, bw) <= j <= btn_col(i, bw) + bw - 2,
        j < s.len(),
    ensures
        with_buttons(s, sv, active, bw, k).len() == s.len(),
        with_buttons(s, sv, active, bw, k)[j] == button_cells(sv[i].1, bw, sv[i].0 == active)[j - btn_col(
            i,
            bw,
        )],
    decreases k,
{
    lemma_with_buttons_len(s, sv, active, bw, k - 1);
    lemma_button_body_len(sv[k - 1].1, bw);
    if k - 1 == i {
    } else {
        lemma_with_buttons_at(s, sv, active, bw, k - 1, i, j);
        assert(btn_col(k - 1, bw) > j) by (nonlinear_arith)
            requires
                k - 1 > i,
                bw >= 10,
                j <= btn_col(i, bw) + bw - 2,
                btn_col(i, bw) == 8 + i * (bw + 1),
                btn_col(k - 1, bw) == 8 + (k - 1) * (bw + 1),
        ;
    }
}

proof fn lemma_with_buttons_len(s: Seq<CellV>, sv: Seq<(usize, Seq<char>)>, active: usize, bw: int, k: int)
    ensures
        with_buttons(s, sv, active, bw, k).len() == s.len(),
    decreases k,
{
    if k > 0 {
        lemma_with_buttons_len(s, sv, active, bw, k - 1);
    }
}

/// On the taskbar a session's button is drawn sunken (white on dark grey,
/// bold) exactly when that session is the active one; every other button is
/// raised (black on light grey, not bold). This holds in every body column
/// of every button shown, wherever the tray does not cover it.
pub proof fn law_only_the_active_button_is_sunken(
    cols: int,
    sv: Seq<(usize, Seq<char>)>,
    active: usize,
    clock: Seq<char>,
    battery: Option<(u8, bool)>,
    i: int,
    j: int,
)
    requires
        0 <= cols <= 65535,
        0 <= i < bar_buttons(cols, sv).len(),
        bar_buttons(cols, sv)[i].c0 <= j <= bar_buttons(cols, sv)[i].c1,
        j < tray_col(cols, tray_text(clock, battery)) || tray_col(cols, tray_text(clock, battery)) < 4,
    ensures
        ({
            let cell = bar_row(cols, sv, active, clock, battery)[j];
            let on = sv[i].0 == active;
            &&& cell.1 == (if on { 15u8 } else { 0u8 })
            &&& cell.2 == (if on { 240u8 } else { 250u8 })
            &&& cell.3 == on
        }),
{
    let bw = button_width(cols, sv.len() as int);
    let end = btn_area_end(cols);
    let k = shown_from(0, sv.len() as int, bw, end);
    lemma_bar_buttons_len(cols, sv);
    lemma_shown_from_at_least(0, sv.len() as int, bw, end);
    lemma_shown_from_at_most(0, sv.len() as int, bw, end);
    lemma_shown_fit(0, sv.len() as int, bw, end, i);
    assert(btn_col(i, bw) >= 8) by (nonlinear_arith)
        requires
            i >= 0,
            bw >= 10,
    ;
    let base = run(spaces(cols), 0, 244, false);
    let with_start = overlay(base, 0, run(start_text(), 0, 250, true));
    assert(with_start.len() == cols);
    assert(bar_buttons(cols, sv)[i].c0 == btn_col(i, bw));
    assert(j < cols);
    lemma_with_buttons_at(with_start, sv, active, bw, k, i, j);
    lemma_button_body_len(sv[i].1, bw);
    let on = sv[i].0 == active;
    let body = button_body(sv[i].1, bw);
    let cells = button_cells(sv[i].1, bw, on);
    let off = j - btn_col(i, bw);
    assert(cells[off] == run(body, if on { 15u8 } else { 0u8 }, if on { 240u8 } else { 250u8 }, on)[off]);
}

// ---------------------------------------------------------------------
// The multiplexer.

/// No prompt, selection mode, prefix or menu is pending: keys go to the
/// focused program unless they are shortcuts.
pub open spec fn normal_mode(s: AppV) -> bool {
    !s.quit_confirm && s.keysel is None && !s.prefix && s.menu is None
}

/// Ctrl+C and Ctrl+V are never shortcuts: in normal mode they always reach
/// the focused program (and consume a finished mouse selection, so that a
/// stale highlight cannot turn the next Ctrl+C into a copy).
pub proof fn law_ctrl_c_and_ctrl_v_reach_program(s: AppV, b: u8, env: Env)
    requires
        s.wf(),
        normal_mode(s),
        s.tabs.len() > 0,
        b == 0x03 || b == 0x16,
    ensures
        on_event_v(s, Event::Byte(b), env).out == s.out.push(EffectV::Write(s.active, seq![b])),
        on_event_v(s, Event::Byte(b), env).tabs == s.tabs,
        !(on_event_v(s, Event::Byte(b), env).sel.have && !on_event_v(s, Event::Byte(b), env).sel.active),
{
}

/// Paging up and then down returns to the same place in the scrollback
/// (when the page up was not cut short by the start of the scrollback).
pub proof fn law_page_up_then_down(s: AppV, env: Env)
    requires
        s.wf(),
        normal_mode(s),
        s.tabs.len() > 0,
        s.tabs[s.active as int].scroll + s.view_rows <= env.scrollback_len,
    ensures
        on_event_v(on_event_v(s, Event::PageUp, env), Event::PageDown, env).tabs[s.active as int].scroll
            == s.tabs[s.active as int].scroll,
{
    let s1 = on_event_v(s, Event::PageUp, env);
    assert(s1.tabs[s.active as int].scroll == s.tabs[s.active as int].scroll + s.view_rows);
    assert(normal_mode(s1));
}

/// Escape while scrolled back returns to the live screen instead of
/// reaching the program.
pub proof fn law_escape_returns_to_live(s: AppV, env: Env)
    requires
        s.wf(),
        normal_mode(s),
        s.tabs.len() > 0,
        s.tabs[s.active as int].scroll > 0,
    ensures
        on_event_v(s, Event::Esc, env).tabs[s.active as int] == (Tab { scroll: 0, last_scroll_total: 0 }),
        on_event_v(s, Event::Esc, env).out == s.out.push(EffectV::SetScroll(s.active, 0)),
{
}

/// What is copied is what is pasted: after a copy that found text, a paste
/// writes exactly that text to the focused program (bracketed when the
/// program asked for it), and each says so in a toast with the count of
/// characters.
pub proof fn law_copy_then_paste(s: AppV, scr: ScreenSnap, scr2: ScreenSnap)
    requires
        s.wf(),
        s.tabs.len() > 0,
        s.sel.have,
        s.sel.text(scr, s.view_rows as u16 as int, s.view_cols as u16 as int).len() > 0,
    ensures
        ({
            let t = s.sel.text(scr, s.view_rows as u16 as int, s.view_cols as u16 as int);
            let s2 = copy_v(s, scr);
            let s3 = paste_v(s2, scr2);
            &&& s2.clip == t
            &&& s2.toast == Some(msg_copied(t.len()))
            &&& s3.out[s2.out.len() as int] == EffectV::Write(s.active, paste_bytes(t, scr2.bracketed_paste))
            &&& s3.toast == Some(msg_pasted(t.len()))
        }),
{
}

/// Quitting needs confirmation: after a quit request only `y` or `Y` quits;
/// any other event cancels the request.
pub proof fn law_quit_needs_confirmation(s: AppV, ev: Event, env: Env)
    requires
        !s.quit,
    ensures
        on_event_v(request_quit_v(s), ev, env).quit == (ev == Event::Byte(0x79) || ev == Event::Byte(0x59)),
        !on_event_v(request_quit_v(s), ev, env).quit_confirm,
{
}

/// The mouse wheel scrolls three lines: up into the scrollback (no further
/// than its start), down towards the live screen (no further than it).
pub proof fn law_wheel_scrolls_three_lines(s: AppV, env: Env, col: u16, row: u16)
    requires
        s.wf(),
        normal_mode(s),
        s.tabs.len() > 0,
        (row as int) < s.view_rows,
    ensures
        ({
            let sc = s.tabs[s.active as int].scroll as int;
            let up = on_event_v(s, Event::WheelUp { col, row }, env).tabs[s.active as int].scroll as int;
            let down = on_event_v(s, Event::WheelDown { col, row }, env).tabs[s.active as int].scroll as int;
            &&& up == (if sc + 3 < env.scrollback_len { sc + 3 } else { env.scrollback_len as int })
            &&& (sc <= env.scrollback_len ==> down == (if sc < 3 { 0 } else { sc - 3 }))
        }),
{
}

/// First taskbar button at or after `i` under a column of button `k`.
proof fn lemma_button_hit(bs: Seq<crate::taskbar::Button>, n: int, col: usize, k: int, i: int, cols: int, sv: Seq<(usize, Seq<char>)>)
    requires
        0 <= cols <= 65535,
        bs == bar_buttons(cols, sv),
        sv.len() == n,
        forall|j: int| 0 <= j < sv.len() ==> (#[trigger] sv[j]).0 == j,
        0 <= i <= k < bs.len(),
        bs[k].c0 <= col <= bs[k].c1 + 1,
    ensures
        button_hit(bs, n, col, i) == Some((k as usize, col == bs[k].c1 + 1)),
    decreases k - i,
{
    lemma_bar_buttons_len(cols, sv);
    if i < k {
        law_buttons_ordered(cols, sv, i, k);
        lemma_button_hit(bs, n, col, k, i + 1, cols, sv);
    } else {
        assert(bs[k].c0 <= bs[k].c1) by {
            if k + 1 < bs.len() {
                law_buttons_ordered(cols, sv, k, k + 1);
            } else if k > 0 {
                law_buttons_ordered(cols, sv, k - 1, k);
                assert(bs[k].c1 == bs[k].c0 + button_width(cols, sv.len() as int) - 2);
            } else {
                assert(bs[k].c1 == bs[k].c0 + button_width(cols, sv.len() as int) - 2);
            }
        }
        let bw = button_width(cols, sv.len() as int);
        lemma_shown_from_at_least(0, sv.len() as int, bw, btn_area_end(cols));
        lemma_shown_fit(0, sv.len() as int, bw, btn_area_end(cols), k);
        assert(btn_col(k, bw) >= 8) by (nonlinear_arith)
            requires
                k >= 0,
                bw >= 10,
        ;
        assert(bs[k].close == Some((bs[k].c1 + 1) as usize));
    }
}

proof fn lemma_bar_buttons_len(cols: int, sv: Seq<(usize, Seq<char>)>)
    requires
        0 <= cols <= 65535,
    ensures
        bar_buttons(cols, sv).len() <= sv.len(),
        forall|j: int| 0 <= j < bar_buttons(cols, sv).len() ==> (#[trigger] bar_buttons(cols, sv)[j]).idx == sv[j].0
            && bar_buttons(cols, sv)[j].c0 + button_width(cols, sv.len() as int) - 2 == bar_buttons(cols, sv)[j].c1
            && bar_buttons(cols, sv)[j].c1 + 2 <= btn_area_end(cols),
{
    let bw = button_width(cols, sv.len() as int);
    let end = btn_area_end(cols);
    lemma_shown_from_at_most(0, sv.len() as int, bw, end);
    lemma_shown_from_at_least(0, sv.len() as int, bw, end);
    assert forall|j: int| 0 <= j < bar_buttons(cols, sv).len() implies (#[trigger] bar_buttons(cols, sv)[j]).idx == sv[j].0
        && bar_buttons(cols, sv)[j].c0 + bw - 2 == bar_buttons(cols, sv)[j].c1
        && bar_buttons(cols, sv)[j].c1 + 2 <= end by {
        lemma_shown_fit(0, sv.len() as int, bw, end, j);
        assert(btn_col(j, bw) >= 8) by (nonlinear_arith)
            requires
                j >= 0,
                bw >= 10,
        ;
    }
}

proof fn lemma_shown_from_at_most(i: int, n: int, bw: int, end: int)
    requires
        i <= n,
    ensures
        shown_from(i, n, bw, end) <= n,
    decreases n - i,
{
    if !(i >= n || btn_col(i, bw) + bw > end) {
        lemma_shown_from_at_most(i + 1, n, bw, end);
    }
}

/// Clicking a taskbar button focuses its tab; clicking its red `x` closes
/// that tab. The buttons are those the taskbar drew for the tabs in order.
pub proof fn law_taskbar_click(s: AppV, env: Env, sv: Seq<(usize, Seq<char>)>, k: int, col: u16)
    requires
        s.wf(),
        normal_mode(s),
        s.start_c1 <= 6,
        sv.len() == s.tabs.len(),
        forall|j: int| 0 <= j < sv.len() ==> (#[trigger] sv[j]).0 == j,
        s.buttons == bar_buttons(s.view_cols as int, sv),
        0 <= k < s.buttons.len(),
        s.buttons[k].c0 <= col <= s.buttons[k].c1 + 1,
    ensures
        on_event_v(s, Event::MousePress { col, row: s.view_rows as u16 }, env) == (if col == s.buttons[k].c1 + 1 {
            close_active_v(AppV { active: k as usize, ..s })
        } else {
            AppV { active: k as usize, ..s }
        }),
{
    lemma_bar_buttons_len(s.view_cols as int, sv);
    lemma_button_hit(s.buttons, s.tabs.len() as int, col as usize, k, 0, s.view_cols as int, sv);
    assert(s.buttons[k].c0 >= 8) by {
        let bw = button_width(s.view_cols as int, sv.len() as int);
        lemma_shown_from_at_least(0, sv.len() as int, bw, btn_area_end(s.view_cols as int));
        lemma_shown_fit(0, sv.len() as int, bw, btn_area_end(s.view_cols as int), k);
        assert(btn_col(k, bw) >= 8) by (nonlinear_arith)
            requires
                k >= 0,
                bw >= 10,
        ;
    }
}

/// Moving down the Start menu and back up returns to the same line (the
/// selection wraps around at both ends), and the other way round.
pub proof fn law_menu_move_undone(s: AppV)
    requires
        s.wf(),
        s.menu is Some,
        s.menu_cache.len() < usize::MAX,
    ensures
        menu_move_v(menu_move_v(s, 1), -1) == s,
        menu_move_v(menu_move_v(s, -1), 1) == s,
{
    let m = s.menu->0 as int;
    let n = menu_len_of(s.menu_cache.len() as int);
    let up = menu_move_v(s, 1).menu->0 as int;
    let down = menu_move_v(s, -1).menu->0 as int;
    assert(m + n + 1 == n + (m + 1));
    assert(m + n - 1 == n + (m - 1));
    if m + 1 < n {
        vstd::arithmetic::div_mod::lemma_mod_add_multiples_vanish(m + 1, n);
        vstd::arithmetic::div_mod::lemma_small_mod((m + 1) as nat, n as nat);
        assert(up == m + 1);
        vstd::arithmetic::div_mod::lemma_mod_add_multiples_vanish(m, n);
        vstd::arithmetic::div_mod::lemma_small_mod(m as nat, n as nat);
    } else {
        vstd::arithmetic::div_mod::lemma_mod_self_0(n);
        assert((m + n + 1) % n == (n + n) % n);
        vstd::arithmetic::div_mod::lemma_mod_add_multiples_vanish(n, n);
        assert(up == 0);
        vstd::arithmetic::div_mod::lemma_small_mod((n - 1) as nat, n as nat);
    }
    if m > 0 {
        vstd::arithmetic::div_mod::lemma_mod_add_multiples_vanish(m - 1, n);
        vstd::arithmetic::div_mod::lemma_small_mod((m - 1) as nat, n as nat);
        assert(down == m - 1);
        assert(down + n + 1 == n + m);
        vstd::arithmetic::div_mod::lemma_mod_add_multiples_vanish(m, n);
        vstd::arithmetic::div_mod::lemma_small_mod(m as nat, n as nat);
    } else {
        vstd::arithmetic::div_mod::lemma_small_mod((n - 1) as nat, n as nat);
        assert(down == n - 1);
        assert(down + n + 1 == n + n);
        vstd::arithmetic::div_mod::lemma_mod_self_0(n);
        vstd::arithmetic::div_mod::lemma_mod_add_multiples_vanish(n, n);
    }
    assert(menu_move_v(menu_move_v(s, 1), -1).menu == s.menu);
    assert(menu_move_v(menu_move_v(s, -1), 1).menu == s.menu);
}

/// The Ctrl+B prefix is one-shot: whatever key follows it, the prefix is
/// over.
pub proof fn law_prefix_is_one_shot(s: AppV, ev: Event, env: Env)
    requires
        s.prefix,
        !s.quit_confirm,
        s.keysel is None,
    ensures
        !on_event_v(s, ev, env).prefix,
{
}

/// A view scrolled back stays on the same lines while output grows the
/// scrollback under it (as long as the scrollback holds them).
pub proof fn law_anchor_follows_output(s: AppV, tab: int, total: usize)
    requires
        0 <= tab < s.tabs.len(),
        s.tabs[tab].scroll > 0,
        s.tabs[tab].last_scroll_total <= total,
        s.tabs[tab].scroll + (total - s.tabs[tab].last_scroll_total) <= total,
    ensures
        anchor_v(s, tab, total).tabs[tab].scroll == s.tabs[tab].scroll + (total - s.tabs[tab].last_scroll_total),
        anchor_v(s, tab, total).tabs[tab].last_scroll_total == total,
{
}

/// In keyboard selection mode the caret never leaves the view.
pub proof fn law_caret_stays_in_view(s: AppV, ev: Event, env: Env)
    requires
        s.wf(),
        !s.quit_confirm,
        s.keysel matches Some(k) && k.r < s.view_rows && k.c < s.view_cols,
    ensures
        on_event_v(s, ev, env).keysel matches Some(k) ==> k.r < s.view_rows && k.c < s.view_cols,
{
}

/// No effect in `o[lo..hi]` is a `Close`.
pub open spec fn no_close_in(o: Seq<EffectV>, lo: int, hi: int) -> bool {
    forall|k: int| lo <= k < hi ==> !(#[trigger] o[k] is Close)
}

/// `t` keeps the effects `s` had asked for, and either has as many tabs as
/// `s` and asks for no `Close`, or lacks exactly the tab that the one
/// `Close` it asks for (its last effect) names.
pub open spec fn tabs_follow(s: AppV, t: AppV) -> bool {
    &&& s.out.len() <= t.out.len()
    &&& forall|k: int| 0 <= k < s.out.len() ==> t.out[k] == s.out[k]
    &&& {
        ||| t.tabs.len() == s.tabs.len() && no_close_in(t.out, s.out.len() as int, t.out.len() as int)
        ||| t.out.len() > s.out.len() && (t.out.last() matches EffectV::Close(i) && t.tabs == s.tabs.remove(
            i as int,
        ) && no_close_in(t.out, s.out.len() as int, t.out.len() - 1))
    }
}

proof fn lemma_follow_keysel(s: AppV, ev: Event, scr: ScreenSnap)
    requires
        s.wf(),
    ensures
        tabs_follow(s, crate::app::keysel_event_v(s, ev, scr)),
{
}

proof fn lemma_follow_prefix(s: AppV, ev: Event, scr: ScreenSnap)
    requires
        s.wf(),
    ensures
        tabs_follow(s, crate::app::prefix_event_v(s, ev, scr)),
{
}

#[verifier::rlimit(40)]
proof fn lemma_follow_menu(s: AppV, ev: Event)
    requires
        s.wf(),
    ensures
        tabs_follow(s, crate::app::menu_event_v(s, ev)),
{
}

proof fn lemma_follow_action(s: AppV, a: crate::app::CtrlAction, scr: ScreenSnap)
    requires
        s.wf(),
    ensures
        tabs_follow(s, crate::app::action_v(s, a, scr)),
{
}

proof fn lemma_follow_press(s: AppV, col: u16, row: u16)
    requires
        s.wf(),
    ensures
        tabs_follow(s, crate::app::mouse_press_v(s, col, row)),
{
    match button_hit(s.buttons, s.tabs.len() as int, col as usize, 0) {
        Some((i, true)) => {
            lemma_button_hit_exists(s.buttons, s.tabs.len() as int, col as usize, 0);
        },
        _ => {},
    }
}

/// A tab that a taskbar hit names exists.
proof fn lemma_button_hit_exists(bs: Seq<crate::taskbar::Button>, n: int, col: usize, i: int)
    ensures
        button_hit(bs, n, col, i) matches Some((k, _)) ==> k < n,
    decreases bs.len() - i,
{
    if 0 <= i < bs.len() {
        lemma_button_hit_exists(bs, n, col, i + 1);
    }
}

proof fn lemma_follow_byte(s: AppV, b: u8, env: Env)
    requires
        s.wf(),
    ensures
        tabs_follow(s, crate::app::normal_event_v(s, Event::Byte(b), env)),
{
    if b != 0x02 {
        match crate::app::ctrl_action_v(s.on_console, env.shift, b) {
            Some(a) => lemma_follow_action(s, a, env.screen),
            None => {},
        }
    }
}

proof fn lemma_follow_alt(s: AppV, a: u8, env: Env)
    requires
        s.wf(),
    ensures
        tabs_follow(s, crate::app::normal_event_v(s, Event::AltByte(a), env)),
{
    match crate::app::alt_action_v(a) {
        Some(x) => lemma_follow_action(s, x, env.screen),
        None => {},
    }
}

proof fn lemma_follow_scrolling(s: AppV, ev: Event, env: Env)
    requires
        s.wf(),
        ev is Esc || ev is PageUp || ev is PageDown || ev is WheelUp || ev is WheelDown,
    ensures
        tabs_follow(s, crate::app::normal_event_v(s, ev, env)),
{
}

proof fn lemma_follow_other(s: AppV, ev: Event, env: Env)
    requires
        s.wf(),
        !(ev is Byte || ev is AltByte || ev is Esc || ev is PageUp || ev is PageDown || ev is WheelUp
            || ev is WheelDown || ev is MousePress),
    ensures
        tabs_follow(s, crate::app::normal_event_v(s, ev, env)),
{
}

proof fn lemma_follow_normal(s: AppV, ev: Event, env: Env)
    requires
        s.wf(),
    ensures
        tabs_follow(s, crate::app::normal_event_v(s, ev, env)),
{
    match ev {
        Event::Byte(b) => lemma_follow_byte(s, b, env),
        Event::AltByte(a) => lemma_follow_alt(s, a, env),
        Event::MousePress { col, row } => lemma_follow_press(s, col, row),
        Event::Esc | Event::PageUp | Event::PageDown | Event::WheelUp { .. } | Event::WheelDown { .. } => {
            lemma_follow_scrolling(s, ev, env)
        },
        _ => lemma_follow_other(s, ev, env),
    }
}

/// Tabs go only with a `Close`: an event keeps the effects already asked
/// for, and either leaves the number of tabs as it was and asks for no
/// `Close`, or removes exactly the tab that the one `Close` it asks for
/// (its last effect) names. What carries out the effects relies on this to
/// keep its sessions in step with the tabs.
pub proof fn law_tabs_go_only_with_close(s: AppV, ev: Event, env: Env)
    requires
        s.wf(),
    ensures
        tabs_follow(s, on_event_v(s, ev, env)),
{
    if s.quit_confirm {
    } else if s.keysel is Some {
        lemma_follow_keysel(s, ev, env.screen);
    } else if s.prefix {
        lemma_follow_prefix(s, ev, env.screen);
    } else if s.menu is Some {
        lemma_follow_menu(s, ev);
    } else {
        lemma_follow_normal(s, ev, env);
    }
}

/// What the main loop keeps after every step: the state is well-formed (the
/// active tab exists while there are tabs, the menu selection is a line of
/// the menu, the sizes agree), and once no tab is left the multiplexer quits.
pub open spec fn loop_ok(s: AppV) -> bool {
    s.wf() && (s.tabs.len() == 0 ==> s.quit)
}

/// `t` keeps what the main loop needs of `s`, and quitting is never undone.
pub open spec fn keeps_loop(s: AppV, t: AppV) -> bool {
    loop_ok(t) && (s.quit ==> t.quit)
}

proof fn lemma_loop_keysel(s: AppV, ev: Event, scr: ScreenSnap)
    requires
        loop_ok(s),
    ensures
        keeps_loop(s, crate::app::keysel_event_v(s, ev, scr)),
{
}

proof fn lemma_loop_prefix(s: AppV, ev: Event, scr: ScreenSnap)
    requires
        loop_ok(s),
    ensures
        keeps_loop(s, crate::app::prefix_event_v(s, ev, scr)),
{
    if s.tabs.len() > 1 {
        vstd::arithmetic::div_mod::lemma_mod_pos_bound(s.active + 1, s.tabs.len() as int);
    }
}

proof fn lemma_loop_menu(s: AppV, ev: Event)
    requires
        loop_ok(s),
    ensures
        keeps_loop(s, crate::app::menu_event_v(s, ev)),
{
    let n = menu_len_of(s.menu_cache.len() as int);
    if s.menu is Some {
        let m = s.menu->0 as int;
        vstd::arithmetic::div_mod::lemma_mod_pos_bound(m + n + 1, n);
        vstd::arithmetic::div_mod::lemma_mod_pos_bound(m + n - 1, n);
    }
}

proof fn lemma_loop_action(s: AppV, a: crate::app::CtrlAction, scr: ScreenSnap)
    requires
        loop_ok(s),
    ensures
        keeps_loop(s, crate::app::action_v(s, a, scr)),
{
}

proof fn lemma_loop_byte(s: AppV, b: u8, env: Env)
    requires
        loop_ok(s),
    ensures
        keeps_loop(s, crate::app::normal_event_v(s, Event::Byte(b), env)),
{
    if b != 0x02 {
        match crate::app::ctrl_action_v(s.on_console, env.shift, b) {
            Some(a) => lemma_loop_action(s, a, env.screen),
            None => {},
        }
    }
}

proof fn lemma_loop_alt(s: AppV, a: u8, env: Env)
    requires
        loop_ok(s),
    ensures
        keeps_loop(s, crate::app::normal_event_v(s, Event::AltByte(a), env)),
{
    match crate::app::alt_action_v(a) {
        Some(x) => lemma_loop_action(s, x, env.screen),
        None => {},
    }
}

proof fn lemma_loop_press(s: AppV, col: u16, row: u16)
    requires
        loop_ok(s),
    ensures
        keeps_loop(s, crate::app::mouse_press_v(s, col, row)),
{
    lemma_button_hit_exists(s.buttons, s.tabs.len() as int, col as usize, 0);
}

proof fn lemma_loop_scrolling(s: AppV, ev: Event, env: Env)
    requires
        loop_ok(s),
        ev is Esc || ev is PageUp || ev is PageDown || ev is WheelUp || ev is WheelDown,
    ensures
        keeps_loop(s, crate::app::normal_event_v(s, ev, env)),
{
}

proof fn lemma_loop_drag(s: AppV, ev: Event, env: Env)
    requires
        loop_ok(s),
        ev is MouseDrag || ev is MouseRelease,
    ensures
        keeps_loop(s, crate::app::normal_event_v(s, ev, env)),
{
}

proof fn lemma_loop_other(s: AppV, ev: Event, env: Env)
    requires
        loop_ok(s),
        !(ev is Byte || ev is AltByte || ev is MousePress || ev is AltTab || ev is Esc || ev is PageUp
            || ev is PageDown || ev is WheelUp || ev is WheelDown || ev is MouseDrag || ev is MouseRelease),
    ensures
        keeps_loop(s, crate::app::normal_event_v(s, ev, env)),
{
}

proof fn lemma_loop_normal(s: AppV, ev: Event, env: Env)
    requires
        loop_ok(s),
    ensures
        keeps_loop(s, crate::app::normal_event_v(s, ev, env)),
{
    match ev {
        Event::Byte(b) => lemma_loop_byte(s, b, env),
        Event::AltByte(a) => lemma_loop_alt(s, a, env),
        Event::MousePress { col, row } => lemma_loop_press(s, col, row),
        Event::AltTab => {
            if s.tabs.len() > 1 {
                vstd::arithmetic::div_mod::lemma_mod_pos_bound(s.active + 1, s.tabs.len() as int);
            }
        },
        Event::Esc | Event::PageUp | Event::PageDown | Event::WheelUp { .. } | Event::WheelDown { .. } => {
            lemma_loop_scrolling(s, ev, env)
        },
        Event::MouseDrag { .. } | Event::MouseRelease { .. } => lemma_loop_drag(s, ev, env),
        _ => lemma_loop_other(s, ev, env),
    }
}

/// Every step of the main loop keeps what the loop needs: the state stays
/// well-formed (while there are tabs the active one exists), once no tab is
/// left the multiplexer quits, and a quit is never undone. The steps are an
/// input event (the Escape timeout is one too), the end of input, dropping
/// the tabs of exited sessions (which keeps exactly the live ones, in order),
/// anchoring a scrolled view, a resize, handing over the effects, the report
/// of a spawn, and opening the menu. So does every sequence of them.
pub proof fn law_loop_keeps_its_invariant(
    s: AppV,
    ev: Event,
    env: Env,
    alive: Seq<bool>,
    tab: int,
    total: usize,
    rows: usize,
    cols: usize,
    ok: bool,
    entries: Seq<EntryV>,
)
    requires
        loop_ok(s),
    ensures
        keeps_loop(s, on_event_v(s, ev, env)),
        keeps_loop(s, AppV { quit: true, ..s }),
        alive.len() == s.tabs.len() ==> keeps_loop(s, prune_v(s, alive)) && prune_v(s, alive).tabs == keep_alive(
            s.tabs,
            alive,
            s.tabs.len() as int,
        ),
        0 <= tab < s.tabs.len() ==> keeps_loop(s, anchor_v(s, tab, total)),
        1 <= rows <= 65535 && 1 <= cols <= 65535 ==> keeps_loop(
            s,
            AppV { rows, cols, view_rows: view_rows_of(rows as int) as usize, view_cols: cols, ..s },
        ),
        keeps_loop(s, AppV { out: Seq::empty(), ..s }),
        s.tabs.len() + 1 < usize::MAX ==> keeps_loop(s, spawned_v(s, ok)) && keeps_loop(s, spawned_cmd_v(s, ok)),
        entries.len() > 0 ==> keeps_loop(s, open_menu_v(s, entries)),
{
    if s.quit_confirm {
    } else if s.keysel is Some {
        lemma_loop_keysel(s, ev, env.screen);
    } else if s.prefix {
        lemma_loop_prefix(s, ev, env.screen);
    } else if s.menu is Some {
        lemma_loop_menu(s, ev);
    } else {
        lemma_loop_normal(s, ev, env);
    }
    if alive.len() == s.tabs.len() {
        lemma_keep_alive_len(s.tabs, alive, s.tabs.len() as int);
    }
}

/// After the Ctrl+B prefix, `v` (or Ctrl+V) pastes and `c` (or Ctrl+C)
/// copies. A paste writes the clipboard to the active tab (bracketed when
/// the program asked for it) and says how many characters went; with an
/// empty clipboard it writes nothing and says so. A copy takes the selected
/// text into the clipboard, consumes the selection and writes nothing to the
/// program; with nothing selected it says so and leaves the clipboard be.
pub proof fn law_prefix_paste_and_copy(s: AppV, b: u8, env: Env)
    requires
        s.wf(),
        s.prefix,
        !s.quit_confirm,
        s.keysel is None,
        s.tabs.len() > 0,
    ensures
        ({
            let t = on_event_v(s, Event::Byte(b), env);
            &&& !t.prefix
            &&& (b == 0x76 || b == 0x16) ==> {
                &&& t.clip == s.clip
                &&& s.clip.len() > 0 ==> t.out == s.out.push(
                    EffectV::Write(s.active, paste_bytes(s.clip, env.screen.bracketed_paste)),
                ).push(EffectV::Toast) && t.toast == Some(msg_pasted(s.clip.len()))
                &&& s.clip.len() == 0 ==> t.out == s.out.push(EffectV::Toast) && t.toast == Some(
                    "clipboard empty"@,
                )
            }
            &&& (b == 0x63 || b == 0x03) ==> {
                let text = s.sel.text(env.screen, s.view_rows as u16 as int, s.view_cols as u16 as int);
                &&& t.out == s.out.push(EffectV::Toast)
                &&& s.sel.have && text.len() > 0 ==> t.clip == text && !t.sel.have && t.toast == Some(
                    msg_copied(text.len()),
                )
                &&& !(s.sel.have && text.len() > 0) ==> t.clip == s.clip && t.toast == Some(
                    "nothing selected"@,
                )
            }
        }),
{
}

/// A cell of the session view keeps the emulator cell's look: its text (a
/// space for none, and for the right half of a double-width character),
/// its colours as palette indices, and its bold, underline and italic
/// flags; only inverse flips, and only inside the selection. Where the
/// screen has no cell, a default-styled space.
pub proof fn law_view_cell_keeps_its_look(sel: Sel, r: int, c: int, cell: Option<crate::grid::VtCell>)
    ensures
        ({
            let k = crate::app::blit_v(sel, r, c, cell);
            match cell {
                Some(x) => {
                    &&& k.0 == (if x.wide_continuation || x.contents@.len() == 0 {
                        seq![' ']
                    } else {
                        x.contents@
                    })
                    &&& k.1 == crate::screen::color_index(x.fg)
                    &&& k.2 == crate::screen::color_index(x.bg)
                    &&& k.3 == x.bold
                    &&& k.4 == x.underline
                    &&& k.5 == (x.inverse != sel.covers(r, c))
                    &&& k.6 == x.italic
                },
                None => k == (seq![' '], 255u8, 255u8, false, false, false, false),
            }
        }),
{
}

/// Alt+Tab `k` times.
pub open spec fn cycle(s: AppV, k: nat) -> AppV
    decreases k,
{
    if k == 0 {
        s
    } else {
        next_tab_v(cycle(s, (k - 1) as nat))
    }
}

proof fn lemma_cycle(s: AppV, k: nat)
    requires
        s.tabs.len() > 1,
        s.tabs.len() < usize::MAX,
        s.active < s.tabs.len(),
    ensures
        cycle(s, k).active == (s.active + k) % (s.tabs.len() as int),
        cycle(s, k).tabs == s.tabs,
    decreases k,
{
    let n = s.tabs.len() as int;
    if k == 0 {
        vstd::arithmetic::div_mod::lemma_small_mod(s.active as nat, n as nat);
    } else {
        lemma_cycle(s, (k - 1) as nat);
        let prev = cycle(s, (k - 1) as nat);
        let a = (s.active + k - 1) % n;
        assert(prev.active == a);
        vstd::arithmetic::div_mod::lemma_add_mod_noop(s.active + k - 1, 1, n);
        vstd::arithmetic::div_mod::lemma_small_mod(1, n as nat);
        vstd::arithmetic::div_mod::lemma_mod_bound(a + 1, n);
        assert((a + 1) % n == (s.active + k) % n);
        assert(cycle(s, k) == next_tab_v(prev));
    }
}

/// Alt+Tab cycles through the tabs: as many presses as there are tabs
/// come back to the tab one started on.
pub proof fn law_alt_tab_cycles(s: AppV)
    requires
        s.wf(),
        s.tabs.len() > 1,
    ensures
        cycle(s, s.tabs.len()).active == s.active,
{
    lemma_cycle(s, s.tabs.len());
    vstd::arithmetic::div_mod::lemma_mod_add_multiples_vanish(s.active as int, s.tabs.len() as int);
    vstd::arithmetic::div_mod::lemma_small_mod(s.active as nat, s.tabs.len());
}

/// A selection covers the same cells whichever way it was dragged.
pub proof fn law_selection_direction_free(a: Sel, r: int, c: int)
    ensures
        a.covers(r, c) == (Sel { start: a.end, end: a.start, ..a }).covers(r, c),
{
}

} // verus!
