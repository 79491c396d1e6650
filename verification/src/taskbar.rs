//! The Win95-style taskbar: wide labelled session buttons on the left,
//! clock/battery tray on the right, all on the single bottom row.

use vstd::prelude::*;
use crate::screen::{Canvas, CellV, cells_v};
use crate::fmt::{dec_chars, push_dec};
use crate::text::{push_char, chars_of};

verus! {

broadcast use vstd::string::group_string_axioms;

/// Win95 silver grey and friends (256-colour palette indices).
/// Inactive button face (light, "raised").
pub const GRAY: u8 = 250;
/// Active button face (dark grey, "pressed").
pub const GRAY_DARK: u8 = 240;
/// Taskbar base fill.
pub const BAR: u8 = 244;
pub const BLACK: u8 = 0;
pub const WHITE: u8 = 15;
pub const RED: u8 = 9;

/// Widest a single session button may get (incl. padding + close marker).
const BTN_MAX: usize = 22;
/// Narrowest a session button may shrink to before we stop drawing more.
const BTN_MIN: usize = 10;
/// Columns reserved on the right for the clock/battery tray.
const TRAY_RESERVE: usize = 24;

/// A clickable session button.
#[derive(Clone, Copy)]
pub struct Button {
    /// Column range of the clickable button body (inclusive).
    pub c0: usize,
    pub c1: usize,
    pub idx: usize,
    /// Column of the close ("x") marker, if any.
    pub close: Option<usize>,
}

/// Where things landed on the taskbar row (for hit tests).
pub struct Layout {
    pub buttons: Vec<Button>,
    /// First column of the system tray (not clickable).
    pub tray0: usize,
    /// Clickable column range of the "Start" button (inclusive).
    pub start_c0: usize,
    pub start_c1: usize,
}

impl Layout {
    /// No buttons, everything at column 0.
    pub fn new() -> (l: Layout)
        ensures
            l.buttons@.len() == 0,
            l.tray0 == 0,
            l.start_c0 == 0,
            l.start_c1 == 0,
    {
        Layout { buttons: Vec::new(), tray0: 0, start_c0: 0, start_c1: 0 }
    }
}

/// Cells showing `cs`, one character each, in one style.
pub open spec fn run(cs: Seq<char>, fg: u8, bg: u8, bold: bool) -> Seq<CellV> {
    cs.map_values(|c: char| (seq![c], fg, bg, bold, false, false, false))
}

/// `s` with `seg` painted from column `at` on (clipped to `s`).
pub open spec fn overlay(s: Seq<CellV>, at: int, seg: Seq<CellV>) -> Seq<CellV> {
    Seq::new(s.len(), |j: int| if at <= j < at + seg.len() { seg[j - at] } else { s[j] })
}

/// `n` spaces.
pub open spec fn spaces(n: int) -> Seq<char> {
    Seq::new(if n < 0 { 0 } else { n as nat }, |i: int| ' ')
}

pub open spec fn start_text() -> Seq<char> {
    seq![' ', 'S', 't', 'a', 'r', 't', ' ']
}

/// Width of each session button on a bar of `cols` columns showing `n`
/// sessions.
pub open spec fn button_width(cols: int, n: int) -> int {
    let end = btn_area_end(cols);
    let avail = end - 8;
    let q = avail / (if n < 1 { 1 } else { n });
    if q < 10 {
        10
    } else if q > 22 {
        22
    } else {
        q
    }
}

/// End of the button area: everything left of the reserved tray columns.
pub open spec fn btn_area_end(cols: int) -> int {
    if cols - 24 > 8 {
        cols - 24
    } else {
        8
    }
}

/// First column of button `i`.
pub open spec fn btn_col(i: int, bw: int) -> int {
    8 + i * (bw + 1)
}

/// How many of `n` buttons are drawn: the first that does not fit stops it.
pub open spec fn shown_from(i: int, n: int, bw: int, end: int) -> int
    decreases n - i,
{
    if i >= n || btn_col(i, bw) + bw > end {
        i
    } else {
        shown_from(i + 1, n, bw, end)
    }
}

/// The label shown on a button: cut to `w` characters, with an ellipsis
/// when cut short.
pub open spec fn button_name(label: Seq<char>, w: int) -> Seq<char> {
    if label.len() > w && w >= 2 {
        label.take(w - 1).push('…')
    } else if label.len() > w {
        label.take(w)
    } else {
        label
    }
}

/// `s` padded with spaces to length `w`.
pub open spec fn pad_right(s: Seq<char>, w: int) -> Seq<char> {
    s + spaces(w - s.len())
}

/// The body text of a button of width `bw`: a space, the name, padding.
pub open spec fn button_body(label: Seq<char>, bw: int) -> Seq<char> {
    pad_right(seq![' '] + button_name(label, bw - 3), bw - 1)
}

/// The cells of a button: body, red close marker, spacer.
pub open spec fn button_cells(label: Seq<char>, bw: int, is_active: bool) -> Seq<CellV> {
    let bg: u8 = if is_active { 240 } else { 250 };
    let fg: u8 = if is_active { 15 } else { 0 };
    run(button_body(label, bw), fg, bg, is_active) + run(seq!['x'], 9, bg, false) + run(
        seq![' '],
        0,
        244,
        false,
    )
}

/// The bar after painting buttons `0..k`.
pub open spec fn with_buttons(
    s: Seq<CellV>,
    sessions: Seq<(usize, Seq<char>)>,
    active: usize,
    bw: int,
    k: int,
) -> Seq<CellV>
    decreases k,
{
    if k <= 0 {
        s
    } else {
        let prev = with_buttons(s, sessions, active, bw, k - 1);
        overlay(
            prev,
            btn_col(k - 1, bw),
            button_cells(sessions[k - 1].1, bw, sessions[k - 1].0 == active),
        )
    }
}

/// `s` padded on the left with spaces to width `w` (`{:w}` for numbers).
pub open spec fn pad_left(s: Seq<char>, w: int) -> Seq<char> {
    spaces(w - s.len()) + s
}

/// The battery gauge: percentage, five-block bar, `*` while charging.
pub open spec fn battery_text(battery: Option<(u8, bool)>) -> Seq<char> {
    match battery {
        Some((pct, charging)) => pad_left(dec_chars(pct as nat), 3) + seq!['%', ' '] + Seq::new(
            5,
            |k: int| if k < pct * 5 / 100 { '▓' } else { '░' },
        ) + (if charging { seq!['*'] } else { Seq::empty() }),
        None => Seq::empty(),
    }
}

/// The tray: clock and battery gauge.
pub open spec fn tray_text(clock: Seq<char>, battery: Option<(u8, bool)>) -> Seq<char> {
    seq![' ', ' '] + clock + seq![' ', ' '] + battery_text(battery)
}

/// First tray column.
pub open spec fn tray_col(cols: int, tray: Seq<char>) -> int {
    if cols - tray.len() < 0 {
        0
    } else {
        cols - tray.len()
    }
}

/// The whole taskbar row.
pub open spec fn bar_row(
    cols: int,
    sessions: Seq<(usize, Seq<char>)>,
    active: usize,
    clock: Seq<char>,
    battery: Option<(u8, bool)>,
) -> Seq<CellV> {
    let base = run(spaces(cols), 0, 244, false);
    let with_start = overlay(base, 0, run(start_text(), 0, 250, true));
    let bw = button_width(cols, sessions.len() as int);
    let k = shown_from(0, sessions.len() as int, bw, btn_area_end(cols));
    let with_btns = with_buttons(with_start, sessions, active, bw, k);
    let tray = tray_text(clock, battery);
    let t0 = tray_col(cols, tray);
    if t0 >= 4 {
        overlay(with_btns, t0, run(tray, 0, 244, false))
    } else {
        with_btns
    }
}

/// The values of the session list: (index, label).
pub open spec fn sessions_v(s: Seq<(usize, String)>) -> Seq<(usize, Seq<char>)> {
    s.map_values(|p: (usize, String)| (p.0, p.1@))
}

/// Frame `v` with row `row` (of width `cols`) replaced by `line`.
pub open spec fn with_row(v: Seq<CellV>, cols: int, row: int, line: Seq<CellV>) -> Seq<CellV> {
    Seq::new(
        v.len(),
        |i: int| if row * cols <= i < row * cols + cols { line[i - row * cols] } else { v[i] },
    )
}

/// Layout of button `i`.
pub open spec fn button_at(sessions: Seq<(usize, Seq<char>)>, bw: int, i: int) -> Button {
    Button {
        c0: btn_col(i, bw) as usize,
        c1: (btn_col(i, bw) + bw - 2) as usize,
        idx: sessions[i].0,
        close: Some((btn_col(i, bw) + bw - 1) as usize),
    }
}

/// Painting one cell of a run extends the painted prefix.
pub proof fn lemma_overlay_step(s: Seq<CellV>, at: int, seg: Seq<CellV>, j: int)
    requires
        0 <= j < seg.len(),
        0 <= at,
        at + j < s.len(),
    ensures
        overlay(s, at, seg.take(j)).update(at + j, seg[j]) == overlay(s, at, seg.take(j + 1)),
{
    assert(overlay(s, at, seg.take(j)).update(at + j, seg[j]) =~= overlay(s, at, seg.take(j + 1)));
}

/// Painting three adjacent segments is painting their concatenation.
proof fn lemma_overlay_concat(s: Seq<CellV>, at: int, a: Seq<CellV>, b: Seq<CellV>)
    ensures
        overlay(overlay(s, at, a), at + a.len(), b) == overlay(s, at, a + b),
{
    assert(overlay(overlay(s, at, a), at + a.len(), b) =~= overlay(s, at, a + b));
}

/// Paint `cs` on row `row` from column `at` on, one character per cell,
/// clipped to the row.
pub fn paint(canvas: &mut Canvas, row: usize, at: usize, cs: &Vec<char>, fg: u8, bg: u8, bold: bool)
    requires
        old(canvas).wf(),
        row < old(canvas).rows,
    ensures
        final(canvas).wf(),
        final(canvas).rows == old(canvas).rows,
        final(canvas).cols == old(canvas).cols,
        final(canvas).prev == old(canvas).prev,
        final(canvas).cur_v() == with_row(
            old(canvas).cur_v(),
            old(canvas).cols as int,
            row as int,
            overlay(
                crate::screen::row_of(old(canvas).cur_v(), old(canvas).cols as int, row as int),
                at as int,
                run(cs@, fg, bg, bold),
            ),
        ),
{
    let ghost v0 = canvas.cur_v();
    let ghost cols = canvas.cols as int;
    let ghost line0 = crate::screen::row_of(v0, cols, row as int);
    let ghost seg = run(cs@, fg, bg, bold);
    proof {
        lemma_row_bounds(row as int, canvas.rows as int, cols);
    }
    assert(v0.len() == canvas.rows * cols);
    assert(line0.len() == cols);
    assert(with_row(v0, cols, row as int, overlay(line0, at as int, seg.take(0))) =~= v0);
    let ncols = canvas.cols;
    let mut j: usize = 0;
    while j < cs.len()
        invariant
            j <= cs@.len(),
            canvas.wf(),
            canvas.rows == old(canvas).rows,
            canvas.cols == old(canvas).cols,
            ncols == canvas.cols,
            canvas.prev == old(canvas).prev,
            cols == canvas.cols,
            row < canvas.rows,
            row * cols + cols <= canvas.rows * cols,
            v0 == old(canvas).cur_v(),
            line0 == crate::screen::row_of(v0, cols, row as int),
            line0.len() == cols,
            seg == run(cs@, fg, bg, bold),
            canvas.cur_v() == with_row(v0, cols, row as int, overlay(line0, at as int, seg.take(j as int))),
        decreases cs@.len() - j,
    {
        if at < ncols && j < ncols - at {
            let mut s = String::new();
            push_char(&mut s, cs[j]);
            let ghost before = canvas.cur_v();
            canvas.set_cell(row, at + j, s.as_str(), fg, bg, bold, false, false, false);
            proof {
                lemma_overlay_step(line0, at as int, seg, j as int);
                assert(canvas.cur_v() =~= with_row(
                    v0,
                    cols,
                    row as int,
                    overlay(line0, at as int, seg.take(j + 1)),
                ));
            }
        } else {
            assert(overlay(line0, at as int, seg.take(j as int)) =~= overlay(
                line0,
                at as int,
                seg.take(j + 1),
            ));
        }
        j += 1;
    }
    assert(seg.take(cs@.len() as int) =~= seg);
}


pub proof fn lemma_with_row_row(v: Seq<CellV>, cols: int, row: int, line: Seq<CellV>)
    requires
        0 <= row,
        0 <= cols,
        row * cols + cols <= v.len(),
        line.len() == cols,
    ensures
        crate::screen::row_of(with_row(v, cols, row, line), cols, row) == line,
        with_row(v, cols, row, line).len() == v.len(),
{
    assert(crate::screen::row_of(with_row(v, cols, row, line), cols, row) =~= line);
}

pub proof fn lemma_with_row_twice(v: Seq<CellV>, cols: int, row: int, a: Seq<CellV>, b: Seq<CellV>)
    ensures
        with_row(with_row(v, cols, row, a), cols, row, b) == with_row(v, cols, row, b),
{
    assert(with_row(with_row(v, cols, row, a), cols, row, b) =~= with_row(v, cols, row, b));
}

proof fn lemma_overlay_full(s: Seq<CellV>, seg: Seq<CellV>)
    requires
        s.len() == seg.len(),
    ensures
        overlay(s, 0, seg) == seg,
{
    assert(overlay(s, 0, seg) =~= seg);
}

/// A vector of `n` spaces.
fn space_vec(n: usize) -> (v: Vec<char>)
    ensures
        v@ == spaces(n as int),
{
    let mut v: Vec<char> = Vec::new();
    let mut i: usize = 0;
    while i < n
        invariant
            i <= n,
            v@ == spaces(i as int),
        decreases n - i,
    {
        v.push(' ');
        assert(v@ =~= spaces(i + 1));
        i += 1;
    }
    v
}

/// Append `s[lo..hi]` to `v`.
pub fn extend_chars(v: &mut Vec<char>, s: &Vec<char>, lo: usize, hi: usize)
    requires
        lo <= hi <= s@.len(),
    ensures
        final(v)@ == old(v)@ + s@.subrange(lo as int, hi as int),
{
    let mut i = lo;
    while i < hi
        invariant
            lo <= i <= hi <= s@.len(),
            v@ == old(v)@ + s@.subrange(lo as int, i as int),
        decreases hi - i,
    {
        v.push(s[i]);
        assert(v@ =~= old(v)@ + s@.subrange(lo as int, i + 1));
        i += 1;
    }
}

/// The body characters of a button of width `bw` for `label`.
fn body_chars(label: &str, bw: usize) -> (b: Vec<char>)
    requires
        10 <= bw <= 22,
    ensures
        b@ == button_body(label@, bw as int),
        b@.len() == bw - 1,
{
    let v = chars_of(label);
    let text_w = bw - 3;
    let cn = v.len();
    let mut body: Vec<char> = Vec::new();
    body.push(' ');
    if cn > text_w && text_w >= 2 {
        extend_chars(&mut body, &v, 0, text_w - 1);
        body.push('…');
    } else if cn > text_w {
        extend_chars(&mut body, &v, 0, text_w);
    } else {
        extend_chars(&mut body, &v, 0, cn);
    }
    let ghost named = body@;
    assert(named =~= seq![' '] + button_name(label@, bw - 3));
    while body.len() < bw - 1
        invariant
            named.len() <= body@.len() <= bw - 1,
            body@ == named + spaces(body@.len() - named.len()),
        decreases bw - 1 - body@.len(),
    {
        body.push(' ');
        assert(body@ =~= named + spaces(body@.len() - named.len()));
    }
    body
}

/// The battery gauge text.
fn battery_chars(battery: Option<(u8, bool)>) -> (b: Vec<char>)
    ensures
        b@ == battery_text(battery),
{
    match battery {
        Some((pct, charging)) => {
            let mut num = String::new();
            push_dec(&mut num, pct as u64);
            let d = chars_of(num.as_str());
            let mut s: Vec<char> = Vec::new();
            while s.len() + d.len() < 3
                invariant
                    s@ == spaces(s@.len() as int),
                    s@.len() + d@.len() <= 3 || s@.len() == 0,
                    d@ == dec_chars(pct as nat),
                decreases 3 - s@.len(),
            {
                s.push(' ');
                assert(s@ =~= spaces(s@.len() as int));
            }
            assert(s@ =~= spaces(3 - d@.len()));
            extend_chars(&mut s, &d, 0, d.len());
            assert(d@.subrange(0, d@.len() as int) =~= d@);
            s.push('%');
            s.push(' ');
            let filled = pct as usize * 5 / 100;
            let ghost pre = s@;
            let mut k: usize = 0;
            while k < 5
                invariant
                    k <= 5,
                    filled == pct * 5 / 100,
                    s@ == pre + Seq::new(k as nat, |i: int| if i < pct * 5 / 100 { '▓' } else { '░' }),
                decreases 5 - k,
            {
                s.push(if k < filled { '▓' } else { '░' });
                assert(s@ =~= pre + Seq::new((k + 1) as nat, |i: int| if i < pct * 5 / 100 { '▓' } else { '░' }));
                k += 1;
            }
            if charging {
                s.push('*');
            }
            assert(s@ =~= battery_text(battery));
            s
        },
        None => {
            let s: Vec<char> = Vec::new();
            assert(s@ =~= battery_text(battery));
            s
        },
    }
}

/// The buttons `draw` lays out for these sessions on a bar of `cols`.
pub open spec fn bar_buttons(cols: int, sv: Seq<(usize, Seq<char>)>) -> Seq<Button> {
    let bw = button_width(cols, sv.len() as int);
    Seq::new(shown_from(0, sv.len() as int, bw, btn_area_end(cols)) as nat, |i: int| button_at(sv, bw, i))
}

/// Render the taskbar on the bottom row. `sessions` is (index, label).
pub fn draw(
    canvas: &mut Canvas,
    sessions: &[(usize, String)],
    active: usize,
    clock: &str,
    battery: Option<(u8, bool)>,
) -> (layout: Layout)
    requires
        old(canvas).wf(),
    ensures
        final(canvas).wf(),
        final(canvas).rows == old(canvas).rows,
        final(canvas).cols == old(canvas).cols,
        final(canvas).prev == old(canvas).prev,
        old(canvas).rows == 0 ==> final(canvas).cur_v() == old(canvas).cur_v() && layout.buttons@.len() == 0
            && layout.tray0 == 0 && layout.start_c0 == 0 && layout.start_c1 == 0,
        old(canvas).rows > 0 ==> {
            let cols = old(canvas).cols as int;
            let sv = sessions_v(sessions@);
            let bw = button_width(cols, sv.len() as int);
            let k = shown_from(0, sv.len() as int, bw, btn_area_end(cols));
            &&& final(canvas).cur_v() == with_row(
                old(canvas).cur_v(),
                cols,
                old(canvas).rows - 1,
                bar_row(cols, sv, active, clock@, battery),
            )
            &&& layout.start_c0 == 0
            &&& layout.start_c1 == (if cols - 1 < 6 { if cols < 1 { 0 } else { cols - 1 } } else { 6 })
            &&& layout.buttons@.len() == k
            &&& forall|i: int| 0 <= i < k ==> layout.buttons@[i] == button_at(sv, bw, i)
            &&& layout.tray0 == tray_col(cols, tray_text(clock@, battery))
        },
{
    let mut layout = Layout::new();
    if canvas.rows == 0 {
        return layout;
    }
    let row = canvas.rows - 1;
    let cols = canvas.cols;
    let ghost v0 = canvas.cur_v();
    let ghost sv = sessions_v(sessions@);
    proof {
        lemma_row_bounds(row as int, canvas.rows as int, cols as int);
        assert(v0.len() == canvas.rows * cols);
    }

    // Base fill.
    let sp = space_vec(cols);
    let ghost line0 = crate::screen::row_of(v0, cols as int, row as int);
    paint(canvas, row, 0, &sp, BLACK, BAR, false);
    let ghost base = run(spaces(cols as int), 0, 244, false);
    proof {
        lemma_overlay_full(line0, base);
        lemma_with_row_row(v0, cols as int, row as int, base);
    }

    // "Start" look-alike.
    let mut start: Vec<char> = Vec::new();
    start.push(' ');
    start.push('S');
    start.push('t');
    start.push('a');
    start.push('r');
    start.push('t');
    start.push(' ');
    assert(start@ =~= start_text());
    paint(canvas, row, 0, &start, BLACK, GRAY, true);
    let ghost with_start = overlay(base, 0, run(start_text(), 0, 250, true));
    proof {
        lemma_with_row_twice(v0, cols as int, row as int, base, with_start);
        lemma_with_row_row(v0, cols as int, row as int, with_start);
    }
    layout.start_c0 = 0;
    layout.start_c1 = if cols >= 1 {
        if cols - 1 < 6 { cols - 1 } else { 6 }
    } else {
        0
    };

    // Session buttons.
    let end = if cols >= TRAY_RESERVE && cols - TRAY_RESERVE > 8 { cols - TRAY_RESERVE } else { 8 };
    let avail = end - 8;
    let n = if sessions.len() < 1 { 1 } else { sessions.len() };
    let q = avail / n;
    let bw = if q < BTN_MIN { BTN_MIN } else if q > BTN_MAX { BTN_MAX } else { q };
    assert(end == btn_area_end(cols as int));
    assert(bw == button_width(cols as int, sv.len() as int));
    let mut c: usize = 8;
    let mut i: usize = 0;
    let ghost mut line = with_start;
    while i < sessions.len()
        invariant_except_break
            shown_from(0, sv.len() as int, bw as int, end as int) == shown_from(i as int, sv.len() as int, bw as int, end as int),
        invariant
            i <= sessions@.len(),
            sv == sessions_v(sessions@),
            canvas.wf(),
            canvas.rows == old(canvas).rows,
            canvas.cols == cols,
            canvas.prev == old(canvas).prev,
            row == canvas.rows - 1,
            row * cols + cols <= canvas.rows * cols,
            v0 == old(canvas).cur_v(),
            10 <= bw <= 22,
            end == btn_area_end(cols as int),
            end <= cols || end == 8,
            c == btn_col(i as int, bw as int),
            c <= end + 1,
            end + 24 <= usize::MAX,
            end == 8 || end + 24 == cols,
            line.len() == cols,
            line == with_buttons(with_start, sv, active, bw as int, i as int),
            canvas.cur_v() == with_row(v0, cols as int, row as int, line),
            layout.buttons@.len() == i,
            forall|j: int| 0 <= j < i ==> layout.buttons@[j] == button_at(sv, bw as int, j),
            layout.start_c0 == 0,
            layout.start_c1 == (if cols - 1 < 6 { if cols < 1 { 0 } else { cols - 1 } } else { 6 }),
        ensures
            shown_from(0, sv.len() as int, bw as int, end as int) == i,
        decreases sessions@.len() - i,
    {
        if c + bw > end {
            break;
        }
        let is_active = sessions[i].0 == active;
        let (bg, fg) = if is_active { (GRAY_DARK, WHITE) } else { (GRAY, BLACK) };
        let body = body_chars(sessions[i].1.as_str(), bw);
        let ghost l0 = line;
        paint(canvas, row, c, &body, fg, bg, is_active);
        proof {
            lemma_with_row_twice(v0, cols as int, row as int, l0, overlay(l0, c as int, run(body@, fg, bg, is_active)));
            lemma_with_row_row(v0, cols as int, row as int, overlay(l0, c as int, run(body@, fg, bg, is_active)));
        }
        let mut xs: Vec<char> = Vec::new();
        xs.push('x');
        let ghost l1 = overlay(l0, c as int, run(body@, fg, bg, is_active));
        paint(canvas, row, c + bw - 1, &xs, RED, bg, false);
        proof {
            lemma_with_row_twice(v0, cols as int, row as int, l1, overlay(l1, c + bw - 1, run(xs@, 9, bg, false)));
            lemma_with_row_row(v0, cols as int, row as int, overlay(l1, c + bw - 1, run(xs@, 9, bg, false)));
        }
        let mut ss: Vec<char> = Vec::new();
        ss.push(' ');
        let ghost l2 = overlay(l1, c + bw - 1, run(xs@, 9, bg, false));
        paint(canvas, row, c + bw, &ss, BLACK, BAR, false);
        proof {
            lemma_with_row_twice(v0, cols as int, row as int, l2, overlay(l2, c + bw, run(ss@, 0, 244, false)));
            assert(run(body@, fg, bg, is_active).len() == bw - 1);
            lemma_overlay_concat(l0, c as int, run(body@, fg, bg, is_active), run(xs@, 9, bg, false));
            lemma_overlay_concat(
                l0,
                c as int,
                run(body@, fg, bg, is_active) + run(xs@, 9, bg, false),
                run(ss@, 0, 244, false),
            );
            assert(xs@ =~= seq!['x']);
            assert(ss@ =~= seq![' ']);
            assert(sv[i as int] == (sessions@[i as int].0, sessions@[i as int].1@));
            assert(button_cells(sv[i as int].1, bw as int, sv[i as int].0 == active) =~= run(body@, fg, bg, is_active) + run(xs@, 9, bg, false) + run(ss@, 0, 244, false));
        }
        proof {
            line = overlay(l2, c + bw, run(ss@, 0, 244, false));
        }
        layout.buttons.push(Button { c0: c, c1: c + bw - 2, idx: sessions[i].0, close: Some(c + bw - 1) });
        c = c + bw + 1;
        i += 1;
        proof {
            assert(c == btn_col(i as int, bw as int)) by (nonlinear_arith)
                requires
                    c == btn_col(i - 1, bw as int) + bw + 1,
            ;
        }
    }

    // Tray: clock + battery (right aligned).
    let batt = battery_chars(battery);
    let mut tray: Vec<char> = Vec::new();
    tray.push(' ');
    tray.push(' ');
    let ck = chars_of(clock);
    extend_chars(&mut tray, &ck, 0, ck.len());
    tray.push(' ');
    tray.push(' ');
    extend_chars(&mut tray, &batt, 0, batt.len());
    assert(ck@.subrange(0, ck@.len() as int) =~= ck@);
    assert(batt@.subrange(0, batt@.len() as int) =~= batt@);
    assert(tray@ =~= tray_text(clock@, battery));
    layout.tray0 = if cols >= tray.len() { cols - tray.len() } else { 0 };
    if layout.tray0 >= 4 {
        paint(canvas, row, layout.tray0, &tray, BLACK, BAR, false);
        proof {
            lemma_with_row_twice(v0, cols as int, row as int, line, overlay(line, layout.tray0 as int, run(tray@, 0, 244, false)));
        }
    }
    layout
}

pub proof fn lemma_row_bounds(r: int, rows: int, cols: int)
    requires
        0 <= r < rows,
        0 <= cols,
    ensures
        0 <= r * cols,
        r * cols + cols <= rows * cols,
{
    assert(r * cols + cols == (r + 1) * cols) by (nonlinear_arith);
    assert((r + 1) * cols <= rows * cols) by (nonlinear_arith)
        requires
            r + 1 <= rows,
            0 <= cols,
    ;
    assert(r * cols >= 0) by (nonlinear_arith)
        requires
            r >= 0,
            cols >= 0,
    ;
}

} // verus!
