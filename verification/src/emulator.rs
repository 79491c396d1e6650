//! The emulated screen of a session: what the library reads of it, and the
//! view into its scrollback.

use vstd::prelude::*;
use crate::grid::{Color, VtCell, ScreenSnap};

verus! {

/// Lines of scrollback each session keeps.
pub const SCROLLBACK_LEN: usize = 2000;

#[verifier::external_type_specification]
#[verifier::external_body]
pub struct ExVtScreen(vt100::Screen);

/// Lines held in the scrollback of the grid in view (the alternate screen
/// keeps none).
pub uninterp spec fn scrollback_rows(s: vt100::Screen) -> nat;

/// How many lines back into the scrollback the view is (0: the live screen).
pub uninterp spec fn scrollback_offset(s: vt100::Screen) -> nat;

/// The size (rows, cols) of the emulated screen.
pub uninterp spec fn screen_dims(s: vt100::Screen) -> (u16, u16);

/// `Screen::set_scrollback`: move the view `n` lines back. The source clamps
/// `n` to the lines held (a `VecDeque`'s length) and leaves those lines be.
#[verifier::external_body]
fn set_scrollback(s: &mut vt100::Screen, n: usize)
    ensures
        scrollback_rows(*final(s)) == scrollback_rows(*old(s)),
        scrollback_rows(*final(s)) <= usize::MAX,
        scrollback_offset(*final(s)) == (if n < scrollback_rows(*old(s)) {
            n as nat
        } else {
            scrollback_rows(*old(s))
        }),
{
    s.set_scrollback(n);
}

/// `Screen::scrollback`: how far back the view is.
#[verifier::external_body]
fn scrollback(s: &vt100::Screen) -> (r: usize)
    ensures
        r == scrollback_offset(*s),
{
    s.scrollback()
}

/// `Screen::size`: (rows, cols), both at least 1 (`NonZeroU16`).
#[verifier::external_body]
fn screen_size(s: &vt100::Screen) -> (d: (u16, u16))
    ensures
        d == screen_dims(*s),
        d.0 >= 1,
        d.1 >= 1,
{
    let (r, c) = s.size();
    (r.get(), c.get())
}

/// What a cell of the emulated screen holds: its text, whether it is the
/// right half of a double-width character, its colours, and its bold,
/// italic, underline and inverse flags.
pub type CellParts = (Seq<char>, bool, Color, Color, bool, bool, bool, bool);

/// The cell at (r, c) of the view of the emulated screen, if it has one.
pub uninterp spec fn vt_cell(s: vt100::Screen, r: int, c: int) -> Option<CellParts>;

/// Whether row `r` of the view continues on the next row.
pub uninterp spec fn vt_row_wrapped(s: vt100::Screen, r: int) -> bool;

/// The cursor's (row, col).
pub uninterp spec fn vt_cursor(s: vt100::Screen) -> (u16, u16);

/// Whether the program hid the cursor.
pub uninterp spec fn vt_hide_cursor(s: vt100::Screen) -> bool;

/// Whether the program asked for application-cursor key codes.
pub uninterp spec fn vt_application_cursor(s: vt100::Screen) -> bool;

/// Whether the program asked for bracketed paste.
pub uninterp spec fn vt_bracketed_paste(s: vt100::Screen) -> bool;

/// `Screen::cell`: the text, wide-continuation flag, colours and bold,
/// italic, underline and inverse flags of the cell at (r, c) of the view,
/// as `vt_cell` names them.
#[verifier::external_body]
fn screen_cell(s: &vt100::Screen, r: u16, c: u16) -> (o: Option<(String, bool, Color, Color, bool, bool, bool, bool)>)
    ensures
        o is None <==> vt_cell(*s, r as int, c as int) is None,
        o matches Some(t) ==> vt_cell(*s, r as int, c as int) == Some((t.0@, t.1, t.2, t.3, t.4, t.5, t.6, t.7)),
{
    match s.cell(r, c) {
        Some(x) => Some((
            x.contents().to_string(),
            x.is_wide_continuation(),
            match x.fgcolor() { vt100::Color::Default => Color::Default, vt100::Color::Idx(i) => Color::Idx(i), vt100::Color::Rgb(a, b, d) => Color::Rgb(a, b, d) },
            match x.bgcolor() { vt100::Color::Default => Color::Default, vt100::Color::Idx(i) => Color::Idx(i), vt100::Color::Rgb(a, b, d) => Color::Rgb(a, b, d) },
            x.bold(),
            x.italic(),
            x.underline(),
            x.inverse(),
        )),
        None => None,
    }
}

/// `Screen::row_wrapped`: whether row `r` of the view continues on the next.
#[verifier::external_body]
fn screen_row_wrapped(s: &vt100::Screen, r: u16) -> (b: bool)
    ensures
        b == vt_row_wrapped(*s, r as int),
{
    s.row_wrapped(r)
}

/// `Screen::cursor_position`: (row, col) of the cursor.
#[verifier::external_body]
fn screen_cursor(s: &vt100::Screen) -> (p: (u16, u16))
    ensures
        p == vt_cursor(*s),
{
    s.cursor_position()
}

/// `Screen::hide_cursor`: whether the program hid the cursor.
#[verifier::external_body]
fn screen_hide_cursor(s: &vt100::Screen) -> (b: bool)
    ensures
        b == vt_hide_cursor(*s),
{
    s.hide_cursor()
}

/// `Screen::application_cursor`: whether the program asked for
/// application-cursor key codes.
#[verifier::external_body]
fn screen_application_cursor(s: &vt100::Screen) -> (b: bool)
    ensures
        b == vt_application_cursor(*s),
{
    s.application_cursor()
}

/// `Screen::bracketed_paste`: whether the program asked for bracketed paste.
#[verifier::external_body]
fn screen_bracketed_paste(s: &vt100::Screen) -> (b: bool)
    ensures
        b == vt_bracketed_paste(*s),
{
    s.bracketed_paste()
}

/// What a snapshot cell holds.
pub open spec fn cell_parts(v: VtCell) -> CellParts {
    (v.contents@, v.wide_continuation, v.fg, v.bg, v.bold, v.italic, v.underline, v.inverse)
}

/// The cell the snapshot takes for (r, c): the emulated screen's, or an
/// empty default-styled cell where the screen has none.
pub open spec fn seen_cell(s: vt100::Screen, r: int, c: int) -> CellParts {
    match vt_cell(s, r, c) {
        Some(t) => t,
        None => (Seq::empty(), false, Color::Default, Color::Default, false, false, false, false),
    }
}

/// `Screen::set_size`: resize the emulated screen (both its grids) to
/// `rows x cols`. What that does to the scrollback is left unsaid.
#[verifier::external_body]
fn set_screen_size(s: &mut vt100::Screen, rows: u16, cols: u16)
    requires
        rows >= 1,
        cols >= 1,
    ensures
        screen_dims(*final(s)) == (rows, cols),
{
    s.set_size(std::num::NonZeroU16::new(rows).unwrap(), std::num::NonZeroU16::new(cols).unwrap());
}

/// What the library reads of an emulated screen, at its current scrollback
/// view: every cell, the wrap flag of every row, the cursor and the input
/// modes.
pub fn snapshot(s: &vt100::Screen) -> (snap: ScreenSnap)
    ensures
        snap.wf(),
        (snap.rows, snap.cols) == screen_dims(*s),
        snap.rows >= 1,
        snap.cols >= 1,
        forall|r: int, c: int|
            0 <= r < snap.rows && 0 <= c < snap.cols ==> cell_parts(snap.cells@[r * snap.cols + c])
                == #[trigger] seen_cell(*s, r, c),
        forall|r: int| 0 <= r < snap.rows ==> snap.wrapped@[r] == #[trigger] vt_row_wrapped(*s, r),
        snap.cursor == vt_cursor(*s),
        snap.hide_cursor == vt_hide_cursor(*s),
        snap.application_cursor == vt_application_cursor(*s),
        snap.bracketed_paste == vt_bracketed_paste(*s),
{
    let (rows, cols) = screen_size(s);
    let mut cells: Vec<VtCell> = Vec::new();
    let mut wrapped: Vec<bool> = Vec::new();
    let mut r: u16 = 0;
    while r < rows
        invariant
            r <= rows,
            cols >= 1,
            cells@.len() == r * cols,
            wrapped@.len() == r,
            forall|rr: int, cc: int|
                0 <= rr < r && 0 <= cc < cols ==> cell_parts(cells@[rr * cols + cc]) == #[trigger] seen_cell(
                    *s,
                    rr,
                    cc,
                ),
            forall|rr: int| 0 <= rr < r ==> wrapped@[rr] == #[trigger] vt_row_wrapped(*s, rr),
        decreases rows - r,
    {
        let mut c: u16 = 0;
        while c < cols
            invariant
                r < rows,
                c <= cols,
                cols >= 1,
                cells@.len() == r * cols + c,
                wrapped@.len() == r,
                forall|rr: int, cc: int|
                    0 <= rr < r && 0 <= cc < cols ==> cell_parts(cells@[rr * cols + cc]) == #[trigger] seen_cell(
                        *s,
                        rr,
                        cc,
                    ),
                forall|cc: int| 0 <= cc < c ==> cell_parts(cells@[r * cols + cc]) == #[trigger] seen_cell(*s, r as int, cc),
                forall|rr: int| 0 <= rr < r ==> wrapped@[rr] == #[trigger] vt_row_wrapped(*s, rr),
            decreases cols - c,
        {
            let cell = match screen_cell(s, r, c) {
                Some((contents, wide_continuation, fg, bg, bold, italic, underline, inverse)) => VtCell {
                    contents,
                    wide_continuation,
                    fg,
                    bg,
                    bold,
                    italic,
                    underline,
                    inverse,
                },
                None => VtCell {
                    contents: String::new(),
                    wide_continuation: false,
                    fg: Color::Default,
                    bg: Color::Default,
                    bold: false,
                    italic: false,
                    underline: false,
                    inverse: false,
                },
            };
            let ghost before = cells@;
            cells.push(cell);
            proof {
                assert forall|rr: int, cc: int| 0 <= rr < r && 0 <= cc < cols implies cell_parts(
                    cells@[rr * cols + cc],
                ) == #[trigger] seen_cell(*s, rr, cc) by {
                    crate::grid::lemma_index_in_grid(rr, cc, r as int, cols as int);
                    assert(rr * cols + cols <= r * cols) by (nonlinear_arith)
                        requires
                            rr + 1 <= r,
                            cols >= 0,
                    ;
                    assert(cells@[rr * cols + cc] == before[rr * cols + cc]);
                }
            }
            c += 1;
        }
        assert(r * cols + cols == (r + 1) * cols) by (nonlinear_arith);
        wrapped.push(screen_row_wrapped(s, r));
        r += 1;
    }
    ScreenSnap {
        rows,
        cols,
        cells,
        wrapped,
        cursor: screen_cursor(s),
        hide_cursor: screen_hide_cursor(s),
        application_cursor: screen_application_cursor(s),
        bracketed_paste: screen_bracketed_paste(s),
    }
}

/// The lines held in the scrollback; the view is left `scroll` lines back,
/// or at the oldest line when there are fewer.
pub fn total_scroll(s: &mut vt100::Screen, scroll: usize) -> (t: usize)
    ensures
        t == scrollback_rows(*old(s)),
        scrollback_rows(*final(s)) == t,
        scrollback_offset(*final(s)) == (if scroll < t { scroll } else { t }),
{
    set_scrollback(s, usize::MAX);
    let t = scrollback(s);
    set_scrollback(s, if scroll < t { scroll } else { t });
    t
}

/// Move the view `target` lines back into the scrollback, clamped to the
/// lines held; returns where it landed.
pub fn set_scroll(s: &mut vt100::Screen, target: usize) -> (off: usize)
    ensures
        off == (if target < scrollback_rows(*old(s)) { target as nat } else { scrollback_rows(*old(s)) }),
        scrollback_offset(*final(s)) == off,
        scrollback_rows(*final(s)) == scrollback_rows(*old(s)),
{
    set_scrollback(s, target);
    scrollback(s)
}

/// Resize the emulated screen (the view of a session whose terminal is now
/// `rows x cols`).
pub fn resize(s: &mut vt100::Screen, rows: u16, cols: u16)
    requires
        rows >= 1,
        cols >= 1,
    ensures
        screen_dims(*final(s)) == (rows, cols),
{
    set_screen_size(s, rows, cols);
}

} // verus!
