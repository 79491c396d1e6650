//! What a terminal shows after a flush. A flush writes a sequence of
//! requests (reset the style, go to the start of a row, set a style, write a
//! cell's text); a terminal that carries them out on the frame drawn before
//! shows the new frame.

use vstd::prelude::*;
use crate::screen::{
    Attrs, CellV, attrs_of, blank_attrs, attr_before, attrs_upto, row_of, row_changed, changed_upto,
    reset_bytes, row_move, sgr_bytes, glyph, emit_upto, rows_upto, frame_bytes,
};

verus! {

/// A request a frame makes of the terminal.
pub enum Tok {
    /// Reset the style to the default.
    Reset,
    /// Move the cursor to the start of a row.
    Row(nat),
    /// Set the style.
    Style(Attrs),
    /// Write one cell's text at the cursor and move one column right.
    Glyph(Seq<char>),
}

/// The bytes of a request.
pub open spec fn tok_bytes(t: Tok) -> Seq<u8> {
    match t {
        Tok::Reset => reset_bytes(),
        Tok::Row(r) => row_move(r),
        Tok::Style(a) => sgr_bytes(a),
        Tok::Glyph(s) => glyph((s, 0u8, 0u8, false, false, false, false)),
    }
}

/// The bytes of a sequence of requests.
pub open spec fn toks_bytes(ts: Seq<Tok>) -> Seq<u8>
    decreases ts.len(),
{
    if ts.len() == 0 {
        Seq::empty()
    } else {
        toks_bytes(ts.drop_last()) + tok_bytes(ts.last())
    }
}

/// The requests for the first `k` cells of a row written from style `at`.
pub open spec fn row_toks(cells: Seq<CellV>, at: Attrs, k: int) -> Seq<Tok>
    decreases k,
{
    if k <= 0 {
        Seq::empty()
    } else {
        let c = cells[k - 1];
        row_toks(cells, at, k - 1) + (if attrs_of(c) != attr_before(cells, at, k - 1) {
            seq![Tok::Style(attrs_of(c))]
        } else {
            Seq::empty()
        }) + seq![Tok::Glyph(c.0)]
    }
}

/// The requests for the changed rows below `k`.
pub open spec fn rows_toks(prev: Seq<CellV>, cur: Seq<CellV>, cols: int, k: int) -> Seq<Tok>
    decreases k,
{
    if k <= 0 {
        Seq::empty()
    } else {
        rows_toks(prev, cur, cols, k - 1) + (if row_changed(prev, cur, cols, k - 1) {
            seq![Tok::Row((k - 1) as nat)] + row_toks(row_of(cur, cols, k - 1), attrs_upto(prev, cur, cols, k - 1), cols)
        } else {
            Seq::empty()
        })
    }
}

/// The requests of a flush from `prev` to `cur`.
pub open spec fn frame_toks(prev: Seq<CellV>, cur: Seq<CellV>, rows: int, cols: int) -> Seq<Tok> {
    if changed_upto(prev, cur, cols, rows) {
        seq![Tok::Reset] + rows_toks(prev, cur, cols, rows) + seq![Tok::Reset]
    } else {
        Seq::empty()
    }
}

proof fn lemma_toks_bytes_concat(a: Seq<Tok>, b: Seq<Tok>)
    ensures
        toks_bytes(a + b) == toks_bytes(a) + toks_bytes(b),
    decreases b.len(),
{
    if b.len() == 0 {
        assert(a + b =~= a);
        assert(toks_bytes(a) + toks_bytes(b) =~= toks_bytes(a));
    } else {
        assert((a + b).drop_last() =~= a + b.drop_last());
        assert((a + b).last() == b.last());
        lemma_toks_bytes_concat(a, b.drop_last());
        assert(toks_bytes(a) + toks_bytes(b.drop_last()) + tok_bytes(b.last()) =~= toks_bytes(a) + (toks_bytes(
            b.drop_last(),
        ) + tok_bytes(b.last())));
    }
}

proof fn lemma_one_tok(t: Tok)
    ensures
        toks_bytes(seq![t]) == tok_bytes(t),
{
    assert(seq![t].drop_last() =~= Seq::<Tok>::empty());
    assert(seq![t].last() == t);
    assert(toks_bytes(Seq::<Tok>::empty()) == Seq::<u8>::empty());
    assert(Seq::<u8>::empty() + tok_bytes(t) =~= tok_bytes(t));
}

proof fn lemma_row_toks_bytes(cells: Seq<CellV>, at: Attrs, k: int)
    ensures
        toks_bytes(row_toks(cells, at, k)) == emit_upto(cells, at, k),
    decreases k,
{
    if k > 0 {
        let c = cells[k - 1];
        lemma_row_toks_bytes(cells, at, k - 1);
        let st: Seq<Tok> = if attrs_of(c) != attr_before(cells, at, k - 1) {
            seq![Tok::Style(attrs_of(c))]
        } else {
            Seq::empty()
        };
        lemma_toks_bytes_concat(row_toks(cells, at, k - 1), st);
        lemma_toks_bytes_concat(row_toks(cells, at, k - 1) + st, seq![Tok::Glyph(c.0)]);
        lemma_one_tok(Tok::Glyph(c.0));
        if attrs_of(c) != attr_before(cells, at, k - 1) {
            lemma_one_tok(Tok::Style(attrs_of(c)));
        } else {
            assert(toks_bytes(st) == Seq::<u8>::empty());
        }
        assert(glyph((c.0, 0u8, 0u8, false, false, false, false)) == glyph(c));
    }
}

proof fn lemma_rows_toks_bytes(prev: Seq<CellV>, cur: Seq<CellV>, cols: int, k: int)
    requires
        cols >= 0,
    ensures
        toks_bytes(rows_toks(prev, cur, cols, k)) == rows_upto(prev, cur, cols, k),
    decreases k,
{
    if k > 0 {
        lemma_rows_toks_bytes(prev, cur, cols, k - 1);
        if row_changed(prev, cur, cols, k - 1) {
            let row = row_of(cur, cols, k - 1);
            let rt = row_toks(row, attrs_upto(prev, cur, cols, k - 1), cols);
            lemma_row_toks_bytes(row, attrs_upto(prev, cur, cols, k - 1), cols);
            lemma_one_tok(Tok::Row((k - 1) as nat));
            lemma_toks_bytes_concat(seq![Tok::Row((k - 1) as nat)], rt);
            lemma_toks_bytes_concat(rows_toks(prev, cur, cols, k - 1), seq![Tok::Row((k - 1) as nat)] + rt);
        } else {
            assert(rows_toks(prev, cur, cols, k) =~= rows_toks(prev, cur, cols, k - 1));
            assert(rows_upto(prev, cur, cols, k) =~= rows_upto(prev, cur, cols, k - 1));
        }
    }
}

/// The bytes of a flush are its requests, written one after another.
pub proof fn lemma_frame_toks_bytes(prev: Seq<CellV>, cur: Seq<CellV>, rows: int, cols: int)
    requires
        cols >= 0,
    ensures
        toks_bytes(frame_toks(prev, cur, rows, cols)) == frame_bytes(prev, cur, rows, cols),
{
    if changed_upto(prev, cur, cols, rows) {
        let mid = rows_toks(prev, cur, cols, rows);
        lemma_rows_toks_bytes(prev, cur, cols, rows);
        lemma_one_tok(Tok::Reset);
        lemma_toks_bytes_concat(seq![Tok::Reset], mid);
        lemma_toks_bytes_concat(seq![Tok::Reset] + mid, seq![Tok::Reset]);
    } else {
        assert(toks_bytes(Seq::<Tok>::empty()) == Seq::<u8>::empty());
    }
}

/// A terminal showing `cells` (row-major, `cols` to a row), with its cursor
/// at row `r`, column `c`, and `style` in force. Each cell's text takes one
/// column of it.
pub struct Term {
    pub cells: Seq<CellV>,
    pub cols: int,
    pub r: int,
    pub c: int,
    pub style: Attrs,
}

/// How text `text` written in style `a` looks in a cell (no text shows as a
/// space).
pub open spec fn styled(text: Seq<char>, a: Attrs) -> CellV {
    (if text.len() == 0 { seq![' '] } else { text }, a.0, a.1, a.2, a.3, a.4, a.5)
}

/// How a canvas cell looks once drawn.
pub open spec fn shown(c: CellV) -> CellV {
    styled(c.0, attrs_of(c))
}

/// The terminal after carrying out one request.
pub open spec fn run_tok(t: Term, k: Tok) -> Term {
    match k {
        Tok::Reset => Term { style: blank_attrs(), ..t },
        Tok::Row(r) => Term { r: r as int, c: 0, ..t },
        Tok::Style(a) => Term { style: a, ..t },
        Tok::Glyph(text) => Term {
            cells: if 0 <= t.c < t.cols && 0 <= t.r * t.cols + t.c < t.cells.len() {
                t.cells.update(t.r * t.cols + t.c, styled(text, t.style))
            } else {
                t.cells
            },
            c: t.c + 1,
            ..t
        },
    }
}

/// The terminal after carrying out requests in order.
pub open spec fn run_toks(t: Term, ts: Seq<Tok>) -> Term
    decreases ts.len(),
{
    if ts.len() == 0 {
        t
    } else {
        run_tok(run_toks(t, ts.drop_last()), ts.last())
    }
}

proof fn lemma_run_concat(t: Term, a: Seq<Tok>, b: Seq<Tok>)
    ensures
        run_toks(t, a + b) == run_toks(run_toks(t, a), b),
    decreases b.len(),
{
    if b.len() == 0 {
        assert(a + b =~= a);
    } else {
        assert((a + b).drop_last() =~= a + b.drop_last());
        assert((a + b).last() == b.last());
        lemma_run_concat(t, a, b.drop_last());
    }
}

proof fn lemma_run_one(t: Term, k: Tok)
    ensures
        run_toks(t, seq![k]) == run_tok(t, k),
{
    assert(seq![k].drop_last() =~= Seq::<Tok>::empty());
    assert(seq![k].last() == k);
    assert(run_toks(t, Seq::<Tok>::empty()) == t);
}

/// Writing the first `j` cells of a row whose first cell is at `base`, from
/// style `at`, with the cursor at the row's start.
proof fn lemma_run_row(t: Term, row: Seq<CellV>, at: Attrs, j: int, base: int)
    requires
        0 <= j <= row.len(),
        row.len() == t.cols,
        t.c == 0,
        base == t.r * t.cols,
        0 <= base,
        base + t.cols <= t.cells.len(),
        t.style == at,
    ensures
        ({
            let u = run_toks(t, row_toks(row, at, j));
            &&& u.cells.len() == t.cells.len()
            &&& u.cols == t.cols
            &&& u.r == t.r
            &&& u.c == j
            &&& u.style == attr_before(row, at, j)
            &&& forall|i: int|
                0 <= i < u.cells.len() ==> #[trigger] u.cells[i] == (if base <= i < base + j {
                    shown(row[i - base])
                } else {
                    t.cells[i]
                })
        }),
    decreases j,
{
    if j > 0 {
        lemma_run_row(t, row, at, j - 1, base);
        let c = row[j - 1];
        let head = row_toks(row, at, j - 1);
        let u0 = run_toks(t, head);
        let st: Seq<Tok> = if attrs_of(c) != attr_before(row, at, j - 1) {
            seq![Tok::Style(attrs_of(c))]
        } else {
            Seq::empty()
        };
        lemma_run_concat(t, head, st);
        lemma_run_concat(t, head + st, seq![Tok::Glyph(c.0)]);
        let u1 = run_toks(u0, st);
        if attrs_of(c) != attr_before(row, at, j - 1) {
            lemma_run_one(u0, Tok::Style(attrs_of(c)));
        } else {
            assert(u1 == u0);
        }
        assert(u1.style == attrs_of(c));
        lemma_run_one(u1, Tok::Glyph(c.0));
        let u = run_toks(t, row_toks(row, at, j));
        assert(row_toks(row, at, j) == head + st + seq![Tok::Glyph(c.0)]);
        assert(u == run_tok(u1, Tok::Glyph(c.0)));
        assert(u1.r * u1.cols + u1.c == base + j - 1);
        assert(styled(c.0, u1.style) == shown(c));
    }
}

proof fn lemma_unchanged_no_toks(prev: Seq<CellV>, cur: Seq<CellV>, cols: int, k: int)
    requires
        !changed_upto(prev, cur, cols, k),
    ensures
        rows_toks(prev, cur, cols, k) == Seq::<Tok>::empty(),
    decreases k,
{
    if k > 0 {
        lemma_unchanged_no_toks(prev, cur, cols, k - 1);
        assert(rows_toks(prev, cur, cols, k) =~= Seq::<Tok>::empty());
    }
}

/// Carrying out the requests for the rows below `k`, starting from the
/// frame drawn before in the default style.
proof fn lemma_run_rows(prev: Seq<CellV>, cur: Seq<CellV>, rows: int, cols: int, k: int, t0: Term)
    requires
        cols > 0,
        0 <= k <= rows,
        prev.len() == rows * cols,
        cur.len() == rows * cols,
        t0.cols == cols,
        t0.cells.len() == rows * cols,
        forall|i: int| 0 <= i < rows * cols ==> #[trigger] t0.cells[i] == shown(prev[i]),
        t0.style == blank_attrs(),
    ensures
        ({
            let u = run_toks(t0, rows_toks(prev, cur, cols, k));
            &&& u.cols == cols
            &&& u.cells.len() == rows * cols
            &&& u.style == attrs_upto(prev, cur, cols, k)
            &&& forall|i: int| 0 <= i < k * cols ==> #[trigger] u.cells[i] == shown(cur[i])
            &&& forall|i: int| k * cols <= i < rows * cols ==> #[trigger] u.cells[i] == shown(prev[i])
        }),
    decreases k,
{
    if k == 0 {
        assert(rows_toks(prev, cur, cols, 0) == Seq::<Tok>::empty());
        assert(run_toks(t0, Seq::<Tok>::empty()) == t0);
        assert(k * cols == 0) by (nonlinear_arith)
            requires
                k == 0,
        ;
    } else {
        lemma_run_rows(prev, cur, rows, cols, k - 1, t0);
        let u0 = run_toks(t0, rows_toks(prev, cur, cols, k - 1));
        let b = (k - 1) * cols;
        assert(b + cols == k * cols) by (nonlinear_arith)
            requires
                b == (k - 1) * cols,
        ;
        assert(k * cols <= rows * cols) by (nonlinear_arith)
            requires
                k <= rows,
                cols > 0,
        ;
        assert(0 <= b) by (nonlinear_arith)
            requires
                k >= 1,
                cols > 0,
                b == (k - 1) * cols,
        ;
        if row_changed(prev, cur, cols, k - 1) {
            let row = row_of(cur, cols, k - 1);
            let at = attrs_upto(prev, cur, cols, k - 1);
            let rt = row_toks(row, at, cols);
            lemma_run_concat(t0, rows_toks(prev, cur, cols, k - 1), seq![Tok::Row((k - 1) as nat)] + rt);
            lemma_run_concat(u0, seq![Tok::Row((k - 1) as nat)], rt);
            lemma_run_one(u0, Tok::Row((k - 1) as nat));
            let u1 = run_tok(u0, Tok::Row((k - 1) as nat));
            lemma_run_row(u1, row, at, cols, b);
            let u = run_toks(t0, rows_toks(prev, cur, cols, k));
            assert(u == run_toks(u1, rt));
            assert forall|i: int| 0 <= i < k * cols implies #[trigger] u.cells[i] == shown(cur[i]) by {
                if i >= b {
                    assert(row[i - b] == cur[i]);
                }
            }
        } else {
            assert(rows_toks(prev, cur, cols, k) =~= rows_toks(prev, cur, cols, k - 1));
            assert forall|i: int| 0 <= i < k * cols implies #[trigger] u0.cells[i] == shown(cur[i]) by {
                if i >= b {
                    assert(row_of(prev, cols, k - 1)[i - b] == prev[i]);
                    assert(row_of(cur, cols, k - 1)[i - b] == cur[i]);
                }
            }
        }
    }
}

/// A terminal that shows the frame drawn before and carries out the
/// requests of a flush (wherever its cursor was and whatever style was in
/// force) then shows the new frame: every cell with its text (a space where
/// it has none) in its own style. The bytes a flush writes are exactly these
/// requests, one after another. (The terminal is one where each cell's text
/// takes one column.)
pub proof fn law_terminal_shows_the_frame(prev: Seq<CellV>, cur: Seq<CellV>, rows: int, cols: int, t: Term)
    requires
        rows >= 0,
        cols >= 0,
        prev.len() == rows * cols,
        cur.len() == rows * cols,
        t.cols == cols,
        t.cells == prev.map_values(|c: CellV| shown(c)),
    ensures
        run_toks(t, frame_toks(prev, cur, rows, cols)).cells == cur.map_values(|c: CellV| shown(c)),
        toks_bytes(frame_toks(prev, cur, rows, cols)) == frame_bytes(prev, cur, rows, cols),
{
    lemma_frame_toks_bytes(prev, cur, rows, cols);
    if cols == 0 {
        assert(rows * cols == 0);
        lemma_zero_width_unchanged(prev, cur, rows);
        assert(cur.map_values(|c: CellV| shown(c)) =~= t.cells);
    } else {
        let t0 = Term { style: blank_attrs(), ..t };
        lemma_run_rows(prev, cur, rows, cols, rows, t0);
        let u = run_toks(t0, rows_toks(prev, cur, cols, rows));
        if changed_upto(prev, cur, cols, rows) {
            let mid = rows_toks(prev, cur, cols, rows);
            lemma_run_concat(t, seq![Tok::Reset], mid);
            lemma_run_concat(t, seq![Tok::Reset] + mid, seq![Tok::Reset]);
            lemma_run_one(t, Tok::Reset);
            lemma_run_one(u, Tok::Reset);
            assert(run_toks(t, frame_toks(prev, cur, rows, cols)).cells == u.cells);
        } else {
            lemma_unchanged_no_toks(prev, cur, cols, rows);
            assert(u == t0);
        }
        assert(run_toks(t, frame_toks(prev, cur, rows, cols)).cells =~= cur.map_values(|c: CellV| shown(c)));
    }
}

proof fn lemma_zero_width_unchanged(prev: Seq<CellV>, cur: Seq<CellV>, k: int)
    requires
        prev.len() == 0,
        cur.len() == 0,
    ensures
        !changed_upto(prev, cur, 0, k),
    decreases k,
{
    if k > 0 {
        lemma_zero_width_unchanged(prev, cur, k - 1);
        assert(row_of(prev, 0, k - 1) =~= row_of(cur, 0, k - 1));
    }
}

} // verus!
