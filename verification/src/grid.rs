//! A plain-value picture of a session's emulated screen, as the view logic
//! reads it: cell text and attributes, wrap flags, cursor and input modes.

use vstd::prelude::*;

verus! {

/// A cell colour as the emulator reports it.
#[derive(Debug, Clone, Copy, PartialEq, Eq, Structural)]
pub enum Color {
    /// The terminal's default colour.
    Default,
    /// An indexed palette colour.
    Idx(u8),
    /// A true colour (red, green, blue).
    Rgb(u8, u8, u8),
}

/// One emulated cell.
pub struct VtCell {
    pub contents: String,
    /// The right half of a double-width character (holds no text of its own).
    pub wide_continuation: bool,
    pub fg: Color,
    pub bg: Color,
    pub bold: bool,
    pub italic: bool,
    pub underline: bool,
    pub inverse: bool,
}

/// The visible screen of a session (with its scrollback offset applied).
pub struct ScreenSnap {
    pub rows: u16,
    pub cols: u16,
    /// Row-major, `rows * cols` cells.
    pub cells: Vec<VtCell>,
    /// Per row: whether its text continues on the next row.
    pub wrapped: Vec<bool>,
    /// (row, col) of the cursor.
    pub cursor: (u16, u16),
    pub hide_cursor: bool,
    pub application_cursor: bool,
    pub bracketed_paste: bool,
}

impl ScreenSnap {
    /// Cells and wrap flags match the dimensions.
    pub open spec fn wf(&self) -> bool {
        &&& self.cells@.len() == self.rows * self.cols
        &&& self.wrapped@.len() == self.rows
    }

    /// The cell at (r, c), if the screen has one there.
    pub open spec fn cell_at(&self, r: int, c: int) -> Option<VtCell> {
        if 0 <= r < self.rows && 0 <= c < self.cols {
            Some(self.cells@[r * self.cols + c])
        } else {
            None
        }
    }

    /// Whether row `r` wraps into the next (false outside the screen).
    pub open spec fn wraps(&self, r: int) -> bool {
        0 <= r < self.rows && self.wrapped@[r]
    }

    /// An empty screen of no rows.
    pub fn empty() -> (s: ScreenSnap)
        ensures
            s.wf(),
            s.rows == 0,
            s.cols == 0,
            s.cursor == (0u16, 0u16),
            !s.hide_cursor,
            !s.application_cursor,
            !s.bracketed_paste,
    {
        ScreenSnap {
            rows: 0,
            cols: 0,
            cells: Vec::new(),
            wrapped: Vec::new(),
            cursor: (0, 0),
            hide_cursor: false,
            application_cursor: false,
            bracketed_paste: false,
        }
    }

    /// Index of (r, c) into `cells`, if it is on the screen.
    pub fn cell_index(&self, r: u16, c: u16) -> (i: Option<usize>)
        requires
            self.wf(),
        ensures
            match i {
                Some(k) => r < self.rows && c < self.cols && k == r * self.cols + c && k
                    < self.cells@.len(),
                None => !(r < self.rows && c < self.cols),
            },
    {
        let n = self.cells.len();
        if r < self.rows && c < self.cols {
            proof {
                lemma_index_in_grid(r as int, c as int, self.rows as int, self.cols as int);
            }
            Some(r as usize * self.cols as usize + c as usize)
        } else {
            None
        }
    }

    /// `row_wrapped`: false outside the screen.
    pub fn row_wrapped(&self, r: u16) -> (b: bool)
        requires
            self.wf(),
        ensures
            b == self.wraps(r as int),
    {
        if r < self.rows {
            self.wrapped[r as usize]
        } else {
            false
        }
    }
}

/// A row-major index stays below `rows * cols`.
pub proof fn lemma_index_in_grid(r: int, c: int, rows: int, cols: int)
    requires
        0 <= r < rows,
        0 <= c < cols,
    ensures
        0 <= r * cols + c < rows * cols,
        r * cols + cols <= rows * cols,
{
    assert(r * cols + cols == (r + 1) * cols) by (nonlinear_arith);
    assert((r + 1) * cols <= rows * cols) by (nonlinear_arith)
        requires
            r + 1 <= rows,
            0 <= cols,
    ;
    assert(r * cols >= 0) by (nonlinear_arith)
        requires
            r >= 0,
            cols >= 0,
    ;
}

} // verus!
