//! Mouse drag selection overlay over the focused session view.

use vstd::prelude::*;
use crate::grid::ScreenSnap;
use crate::text::{push_char, push_str};

verus! {

broadcast use vstd::string::group_string_axioms;

/// A selection between two (row, col) points, in stream order.
#[derive(Clone, Copy)]
pub struct Sel {
    /// A completed selection exists (can be copied).
    pub have: bool,
    /// A drag is currently in progress.
    pub active: bool,
    /// Where the selection was started (row, col).
    pub start: (u16, u16),
    /// Where it was dragged to (row, col).
    pub end: (u16, u16),
}

/// Stream position of a (row, col) point: rows weigh 65536 columns.
pub open spec fn stream(p: (u16, u16)) -> int {
    p.0 * 65536 + p.1
}

impl Sel {
    /// Lower stream bound of the selection.
    pub open spec fn lo(&self) -> int {
        if stream(self.start) <= stream(self.end) {
            stream(self.start)
        } else {
            stream(self.end)
        }
    }

    /// Upper stream bound of the selection.
    pub open spec fn hi(&self) -> int {
        if stream(self.start) <= stream(self.end) {
            stream(self.end)
        } else {
            stream(self.start)
        }
    }

    /// Whether (r, c) is selected.
    pub open spec fn covers(&self, r: int, c: int) -> bool {
        self.have && self.lo() <= r * 65536 + c && r * 65536 + c <= self.hi()
    }

    /// No selection.
    pub fn new() -> (s: Sel)
        ensures
            !s.have,
            !s.active,
            s.start == (0u16, 0u16),
            s.end == (0u16, 0u16),
    {
        Sel { have: false, active: false, start: (0, 0), end: (0, 0) }
    }

    /// Start a selection (and a drag) at (r, c).
    pub fn press(&mut self, r: u16, c: u16)
        ensures
            final(self).have,
            final(self).active,
            final(self).start == (r, c),
            final(self).end == (r, c),
    {
        self.have = true;
        self.active = true;
        self.start = (r, c);
        self.end = (r, c);
    }

    /// Extend a drag in progress to (r, c); otherwise nothing changes.
    pub fn drag(&mut self, r: u16, c: u16)
        ensures
            final(self).have == old(self).have,
            final(self).active == old(self).active,
            final(self).start == old(self).start,
            final(self).end == if old(self).active {
                (r, c)
            } else {
                old(self).end
            },
    {
        if self.active {
            self.end = (r, c);
        }
    }

    /// End the drag; the selection stays.
    pub fn release(&mut self)
        ensures
            !final(self).active,
            final(self).have == old(self).have,
            final(self).start == old(self).start,
            final(self).end == old(self).end,
    {
        self.active = false;
    }

    /// Drop the selection.
    pub fn clear(&mut self)
        ensures
            !final(self).have,
            !final(self).active,
            final(self).start == old(self).start,
            final(self).end == old(self).end,
    {
        self.have = false;
        self.active = false;
    }

    /// The selection's stream bounds, smaller first.
    fn stream_pos(&self) -> (r: (usize, usize))
        ensures
            r.0 == self.lo(),
            r.1 == self.hi(),
    {
        let a = self.start.0 as usize * 65536 + self.start.1 as usize;
        let b = self.end.0 as usize * 65536 + self.end.1 as usize;
        if a <= b {
            (a, b)
        } else {
            (b, a)
        }
    }

    /// Whether the (row, col) cell is inside the selection, in stream order.
    pub fn inside(&self, r: usize, c: usize) -> (b: bool)
        requires
            r * 65536 + c <= usize::MAX,
        ensures
            b == self.covers(r as int, c as int),
    {
        if !self.have {
            return false;
        }
        let (a, b) = self.stream_pos();
        let p = r * 65536 + c;
        a <= p && p <= b
    }

    /// The text of row `r` that lies in the selection.
    pub open spec fn row_text(&self, screen: ScreenSnap, r: int, c: int) -> Seq<char>
        decreases c,
    {
        if c <= 0 {
            Seq::empty()
        } else {
            let p = r * 65536 + (c - 1);
            let prev = self.row_text(screen, r, c - 1);
            if p < self.lo() || p > self.hi() {
                prev
            } else {
                match screen.cell_at(r, c - 1) {
                    Some(cell) => if cell.wide_continuation {
                        prev
                    } else {
                        prev + cell.contents@
                    },
                    None => prev,
                }
            }
        }
    }

    /// The selected text of rows `0..r` of a `rows x cols` view: each row's
    /// selected text, ended by a newline unless the row wraps or is the last.
    pub open spec fn text_upto(&self, screen: ScreenSnap, rows: int, cols: int, r: int) -> Seq<
        char,
    >
        decreases r,
    {
        if r <= 0 {
            Seq::empty()
        } else {
            let prev = self.text_upto(screen, rows, cols, r - 1);
            let line = self.row_text(screen, r - 1, cols);
            if line.len() == 0 {
                prev
            } else if r < rows && !screen.wraps(r - 1) {
                prev + line + seq!['\n']
            } else {
                prev + line
            }
        }
    }

    /// The plain text of the selection over a `rows x cols` view.
    pub open spec fn text(&self, screen: ScreenSnap, rows: int, cols: int) -> Seq<char> {
        if !self.have {
            Seq::empty()
        } else {
            self.text_upto(screen, rows, cols, rows)
        }
    }

    /// Extract the plain text of the current selection from a screen (which
    /// already reflects the session's scrollback view offset).
    pub fn extract(&self, screen: &ScreenSnap, rows: u16, cols: u16) -> (t: String)
        requires
            screen.wf(),
        ensures
            t@ == self.text(*screen, rows as int, cols as int),
    {
        if !self.have {
            return String::new();
        }
        let (a, b) = self.stream_pos();
        let mut text = String::new();
        let mut r: u16 = 0;
        while r < rows
            invariant
                r <= rows,
                screen.wf(),
                self.have,
                a == self.lo(),
                b == self.hi(),
                text@ == self.text_upto(*screen, rows as int, cols as int, r as int),
            decreases rows - r,
        {
            let start_row = r as usize * 65536;
            let mut line = String::new();
            let mut c: u16 = 0;
            while c < cols
                invariant
                    c <= cols,
                    r < rows,
                    screen.wf(),
                    start_row == r * 65536,
                    a == self.lo(),
                    b == self.hi(),
                    line@ == self.row_text(*screen, r as int, c as int),
                decreases cols - c,
            {
                let p = start_row + c as usize;
                if !(p < a || p > b) {
                    match screen.cell_index(r, c) {
                        Some(k) => {
                            let cell = &screen.cells[k];
                            if !cell.wide_continuation {
                                push_str(&mut line, cell.contents.as_str());
                            }
                        },
                        None => {},
                    }
                }
                c += 1;
            }
            if !line.as_str().is_empty() {
                push_str(&mut text, line.as_str());
                if r + 1 < rows && !screen.row_wrapped(r) {
                    push_char(&mut text, '\n');
                }
            }
            r += 1;
        }
        text
    }
}

} // verus!
