//! Off-screen cell canvas for the whole terminal and a minimal diff renderer.

use vstd::prelude::*;
use crate::fmt::{dec_chars, dec_bytes, push_dec, push_dec_bytes};
use crate::grid::Color;
use crate::text::push_char;
use vstd::utf8::encode_utf8;

verus! {

broadcast use vstd::string::group_string_axioms;

/// Palette value meaning "use the terminal's default colour".
pub const DEFAULT: u8 = 255;

/// One canvas cell: its text and style.
pub struct Cell {
    pub ch: String,
    pub fg: u8,
    pub bg: u8,
    pub bold: bool,
    pub underline: bool,
    pub inverse: bool,
    pub italic: bool,
}

/// The value of a cell: (text, fg, bg, bold, underline, inverse, italic).
pub type CellV = (Seq<char>, u8, u8, bool, bool, bool, bool);

/// A style: (fg, bg, bold, underline, inverse, italic).
pub type Attrs = (u8, u8, bool, bool, bool, bool);

impl View for Cell {
    type V = CellV;

    open spec fn view(&self) -> CellV {
        (self.ch@, self.fg, self.bg, self.bold, self.underline, self.inverse, self.italic)
    }
}

/// The default-styled empty cell.
pub open spec fn blank_v() -> CellV {
    (Seq::empty(), 255u8, 255u8, false, false, false, false)
}

pub open spec fn attrs_of(c: CellV) -> Attrs {
    (c.1, c.2, c.3, c.4, c.5, c.6)
}

pub open spec fn blank_attrs() -> Attrs {
    (255u8, 255u8, false, false, false, false)
}

/// The values of a sequence of cells.
pub open spec fn cells_v(v: Seq<Cell>) -> Seq<CellV> {
    v.map_values(|c: Cell| c@)
}

impl Cell {
    /// The default-styled empty cell.
    pub fn blank() -> (c: Cell)
        ensures
            c@ == blank_v(),
    {
        Cell {
            ch: String::new(),
            fg: DEFAULT,
            bg: DEFAULT,
            bold: false,
            underline: false,
            inverse: false,
            italic: false,
        }
    }

    /// The cell as a comparable tuple.
    pub fn key(&self) -> (k: (String, u8, u8, bool, bool, bool, bool))
        ensures
            (k.0@, k.1, k.2, k.3, k.4, k.5, k.6) == self@,
    {
        (self.ch.clone(), self.fg, self.bg, self.bold, self.underline, self.inverse, self.italic)
    }

    /// Whether two cells have the same text and style.
    pub fn same(&self, o: &Cell) -> (b: bool)
        ensures
            b == (self@ == o@),
    {
        self.fg == o.fg && self.bg == o.bg && self.bold == o.bold && self.underline == o.underline
            && self.inverse == o.inverse && self.italic == o.italic && self.ch == o.ch
    }
}

/// The cell as a comparable tuple.
pub fn cell_key(c: &Cell) -> (k: (String, u8, u8, bool, bool, bool, bool))
    ensures
        (k.0@, k.1, k.2, k.3, k.4, k.5, k.6) == c@,
{
    c.key()
}

/// The SGR escape sequence that selects a style from scratch; 255 means the
/// default colour.
pub open spec fn sgr_chars(fg: u8, bg: u8, bold: bool, underline: bool, inverse: bool, italic: bool) -> Seq<char> {
    seq!['\x1b', '[', '0']
        + (if fg != 255 { color_param('3', fg) } else { Seq::empty() })
        + (if bg != 255 { color_param('4', bg) } else { Seq::empty() })
        + (if bold { seq![';', '1'] } else { Seq::empty() })
        + (if italic { seq![';', '3'] } else { Seq::empty() })
        + (if underline { seq![';', '4'] } else { Seq::empty() })
        + (if inverse { seq![';', '7'] } else { Seq::empty() })
        + seq!['m']
}

/// `;<c>8;5;<n>`: the colour-setting parameter (`c` 3 for foreground, 4 for
/// background).
pub open spec fn color_param(c: char, n: u8) -> Seq<char> {
    seq![';', c, '8', ';', '5', ';'] + dec_chars(n as nat)
}

fn push_color(v: &mut String, c: char, n: u8)
    ensures
        final(v)@ == old(v)@ + color_param(c, n),
{
    push_char(v, ';');
    push_char(v, c);
    push_char(v, '8');
    push_char(v, ';');
    push_char(v, '5');
    push_char(v, ';');
    let ghost mid = v@;
    push_dec(v, n as u64);
    assert(v@ =~= old(v)@ + color_param(c, n));
}

fn push_flag(v: &mut String, d: char)
    ensures
        final(v)@ == old(v)@ + seq![';', d],
{
    push_char(v, ';');
    push_char(v, d);
    assert(v@ =~= old(v)@ + seq![';', d]);
}

/// Build an SGR sequence for the given style. 255 means default colour.
pub fn sgr(fg: u8, bg: u8, bold: bool, underline: bool, inverse: bool, italic: bool) -> (s: String)
    ensures
        s@ == sgr_chars(fg, bg, bold, underline, inverse, italic),
{
    let mut v = String::new();
    push_char(&mut v, '\x1b');
    push_char(&mut v, '[');
    push_char(&mut v, '0');
    let ghost s0 = v@;
    if fg != DEFAULT {
        push_color(&mut v, '3', fg);
    }
    let ghost s1 = v@;
    if bg != DEFAULT {
        push_color(&mut v, '4', bg);
    }
    let ghost s2 = v@;
    if bold {
        push_flag(&mut v, '1');
    }
    let ghost s3 = v@;
    if italic {
        push_flag(&mut v, '3');
    }
    let ghost s4 = v@;
    if underline {
        push_flag(&mut v, '4');
    }
    let ghost s5 = v@;
    if inverse {
        push_flag(&mut v, '7');
    }
    let ghost s6 = v@;
    push_char(&mut v, 'm');
    assert(s0 =~= seq!['\x1b', '[', '0']);
    assert(s1 =~= s0 + (if fg != 255 { color_param('3', fg) } else { Seq::empty() }));
    assert(s2 =~= s1 + (if bg != 255 { color_param('4', bg) } else { Seq::empty() }));
    assert(s3 =~= s2 + (if bold { seq![';', '1'] } else { Seq::empty() }));
    assert(s4 =~= s3 + (if italic { seq![';', '3'] } else { Seq::empty() }));
    assert(s5 =~= s4 + (if underline { seq![';', '4'] } else { Seq::empty() }));
    assert(s6 =~= s5 + (if inverse { seq![';', '7'] } else { Seq::empty() }));
    assert(v@ =~= sgr_chars(fg, bg, bold, underline, inverse, italic));
    v
}

/// Level (0..=5) of a colour channel on the xterm 6x6x6 cube.
pub open spec fn cube_level(x: u8) -> u8 {
    if x < 48 {
        0
    } else if x < 114 {
        1
    } else if x < 178 {
        2
    } else if x < 231 {
        3
    } else if x < 243 {
        4
    } else {
        5
    }
}

/// Squared distance between two colours.
pub open spec fn dist2_spec(r: int, g: int, b: int, r2: int, g2: int, b2: int) -> int {
    (r - r2) * (r - r2) + (g - g2) * (g - g2) + (b - b2) * (b - b2)
}

/// The palette index chosen for an RGB colour: the nearer of its cube
/// colour and its grey-ramp colour (grey-ramp entry `232 + k` has level
/// `8 + 10 k`).
pub open spec fn rgb_index(r: u8, g: u8, b: u8) -> u8 {
    let ri = cube_level(r);
    let gi = cube_level(g);
    let bi = cube_level(b);
    let cube = 16 + 36 * ri + 6 * gi + bi;
    let lum = (3 * r + 4 * g + 2 * b) / 10;
    let gray = 232 + (if lum - 8 < 0 { 0 } else if lum - 8 > 23 { 23 } else { lum - 8 });
    let dcube = dist2_spec(r as int, g as int, b as int, 33 * ri + 16, 33 * gi + 16, 33 * bi + 16);
    let ggray = 8 + (gray - 232) * 10;
    let dgray = dist2_spec(r as int, g as int, b as int, ggray, ggray, ggray);
    if dgray < dcube {
        gray as u8
    } else {
        cube as u8
    }
}

/// The palette index of an emulator colour (255 = default).
pub open spec fn color_index(c: Color) -> u8 {
    match c {
        Color::Default => 255,
        Color::Idx(n) => n,
        Color::Rgb(r, g, b) => rgb_index(r, g, b),
    }
}

fn to36(x: u8) -> (v: u8)
    ensures
        v == cube_level(x),
{
    if x < 48 {
        0
    } else if x < 114 {
        1
    } else if x < 178 {
        2
    } else if x < 231 {
        3
    } else if x < 243 {
        4
    } else {
        5
    }
}

fn dist2(r: u8, g: u8, b: u8, r2: u32, g2: u32, b2: u32) -> (d: u32)
    requires
        r2 <= 255,
        g2 <= 255,
        b2 <= 255,
    ensures
        d == dist2_spec(r as int, g as int, b as int, r2 as int, g2 as int, b2 as int),
{
    let dr = r as i32 - r2 as i32;
    let dg = g as i32 - g2 as i32;
    let db = b as i32 - b2 as i32;
    assert(dr * dr <= 65025 && dg * dg <= 65025 && db * db <= 65025 && dr * dr >= 0 && dg * dg >= 0
        && db * db >= 0) by (nonlinear_arith)
        requires
            -255 <= dr <= 255,
            -255 <= dg <= 255,
            -255 <= db <= 255,
    ;
    (dr * dr + dg * dg + db * db) as u32
}

/// Map an RGB triple to the nearest xterm 256-colour index.
fn rgb_to_256(r: u8, g: u8, b: u8) -> (v: u8)
    ensures
        v == rgb_index(r, g, b),
{
    let ri = to36(r);
    let gi = to36(g);
    let bi = to36(b);
    let cube = 16 + 36 * ri + 6 * gi + bi;
    let gray_lum = (r as i32 * 3 + g as i32 * 4 + b as i32 * 2) / 10;
    let t = gray_lum - 8;
    let cl = if t < 0 { 0 } else if t > 23 { 23 } else { t };
    let gray = 232 + cl as u8;
    let rc = 33 * ri + 16;
    let gc = 33 * gi + 16;
    let bc = 33 * bi + 16;
    let dcube = dist2(r, g, b, rc as u32, gc as u32, bc as u32);
    // The level of grey-ramp entry `gray`.
    let ggray = 8 + (gray - 232) * 10;
    let dgray = dist2(r, g, b, ggray as u32, ggray as u32, ggray as u32);
    if dgray < dcube {
        gray
    } else {
        cube
    }
}

/// Convert an emulator cell colour into a 256-colour palette index
/// (255 = default).
pub fn vt_color(c: Color) -> (v: u8)
    ensures
        v == color_index(c),
{
    match c {
        Color::Default => DEFAULT,
        Color::Idx(n) => n,
        Color::Rgb(r, g, b) => rgb_to_256(r, g, b),
    }
}


/// The whole terminal as a grid of cells, plus what was last drawn.
pub struct Canvas {
    pub rows: usize,
    pub cols: usize,
    /// Row-major, `rows * cols` cells: the frame being composed.
    pub cells: Vec<Cell>,
    /// The frame drawn by the last flush.
    pub prev: Vec<Cell>,
}

/// `n` blank cells.
pub open spec fn blanks(n: nat) -> Seq<CellV> {
    Seq::new(n, |i: int| blank_v())
}

/// The glyph bytes written for a cell (a space when it holds no text).
pub open spec fn glyph(c: CellV) -> Seq<u8> {
    if c.0.len() == 0 {
        seq![0x20u8]
    } else {
        encode_utf8(c.0)
    }
}

/// `ESC [ 0 m`: reset the style.
pub open spec fn reset_bytes() -> Seq<u8> {
    seq![0x1bu8, 0x5bu8, 0x30u8, 0x6du8]
}

/// `ESC [ r+1 ; 1 H`: move to the start of row `r`.
pub open spec fn row_move(r: nat) -> Seq<u8> {
    seq![0x1bu8, 0x5bu8] + dec_bytes(r + 1) + seq![0x3bu8, 0x31u8, 0x48u8]
}

pub open spec fn sgr_bytes(a: Attrs) -> Seq<u8> {
    encode_utf8(sgr_chars(a.0, a.1, a.2, a.3, a.4, a.5))
}

/// The style in force before cell `k` of a row written from style `at`.
pub open spec fn attr_before(cells: Seq<CellV>, at: Attrs, k: int) -> Attrs {
    if k <= 0 {
        at
    } else {
        attrs_of(cells[k - 1])
    }
}

/// Bytes for the first `k` cells of a row written from style `at`: each
/// glyph, preceded by an SGR sequence whenever the style changes.
pub open spec fn emit_upto(cells: Seq<CellV>, at: Attrs, k: int) -> Seq<u8>
    decreases k,
{
    if k <= 0 {
        Seq::empty()
    } else {
        let c = cells[k - 1];
        emit_upto(cells, at, k - 1) + (if attrs_of(c) != attr_before(cells, at, k - 1) {
            sgr_bytes(attrs_of(c))
        } else {
            Seq::empty()
        }) + glyph(c)
    }
}

/// The cells of row `r`.
pub open spec fn row_of(v: Seq<CellV>, cols: int, r: int) -> Seq<CellV> {
    v.subrange(r * cols, r * cols + cols)
}

/// Whether row `r` differs from what was drawn.
pub open spec fn row_changed(prev: Seq<CellV>, cur: Seq<CellV>, cols: int, r: int) -> bool {
    row_of(prev, cols, r) != row_of(cur, cols, r)
}

/// Whether some row below `k` differs.
pub open spec fn changed_upto(prev: Seq<CellV>, cur: Seq<CellV>, cols: int, k: int) -> bool
    decreases k,
{
    if k <= 0 {
        false
    } else {
        changed_upto(prev, cur, cols, k - 1) || row_changed(prev, cur, cols, k - 1)
    }
}

/// The style in force once the changed rows below `k` are written.
pub open spec fn attrs_upto(prev: Seq<CellV>, cur: Seq<CellV>, cols: int, k: int) -> Attrs
    decreases k,
{
    if k <= 0 {
        blank_attrs()
    } else {
        let a = attrs_upto(prev, cur, cols, k - 1);
        if row_changed(prev, cur, cols, k - 1) {
            attr_before(row_of(cur, cols, k - 1), a, cols)
        } else {
            a
        }
    }
}

/// The bytes for the changed rows below `k`: a cursor move to each, then
/// its cells.
pub open spec fn rows_upto(prev: Seq<CellV>, cur: Seq<CellV>, cols: int, k: int) -> Seq<u8>
    decreases k,
{
    if k <= 0 {
        Seq::empty()
    } else {
        rows_upto(prev, cur, cols, k - 1) + (if row_changed(prev, cur, cols, k - 1) {
            row_move((k - 1) as nat) + emit_upto(
                row_of(cur, cols, k - 1),
                attrs_upto(prev, cur, cols, k - 1),
                cols,
            )
        } else {
            Seq::empty()
        })
    }
}

/// What a flush writes: nothing when no row changed; otherwise a style reset,
/// the changed rows, and a closing style reset.
pub open spec fn frame_bytes(prev: Seq<CellV>, cur: Seq<CellV>, rows: int, cols: int) -> Seq<u8> {
    if changed_upto(prev, cur, cols, rows) {
        reset_bytes() + rows_upto(prev, cur, cols, rows) + reset_bytes()
    } else {
        Seq::empty()
    }
}

/// `ESC [ ? 25 h` (show) or `ESC [ ? 25 l` (hide), then `ESC [ r+1 ; c+1 H`.
pub open spec fn park_bytes(r: nat, c: nat, show: bool) -> Seq<u8> {
    seq![0x1bu8, 0x5bu8, 0x3fu8, 0x32u8, 0x35u8, if show { 0x68u8 } else { 0x6cu8 }]
        + seq![0x1bu8, 0x5bu8] + dec_bytes(r + 1) + seq![0x3bu8] + dec_bytes(c + 1) + seq![0x48u8]
}

fn push_reset(out: &mut Vec<u8>)
    ensures
        final(out)@ == old(out)@ + reset_bytes(),
{
    out.push(0x1b);
    out.push(0x5b);
    out.push(0x30);
    out.push(0x6d);
    assert(out@ =~= old(out)@ + reset_bytes());
}

fn push_bytes(out: &mut Vec<u8>, b: &[u8])
    ensures
        final(out)@ == old(out)@ + b@,
{
    let mut i: usize = 0;
    while i < b.len()
        invariant
            i <= b@.len(),
            out@ == old(out)@ + b@.subrange(0, i as int),
        decreases b@.len() - i,
    {
        out.push(b[i]);
        assert(out@ =~= old(out)@ + b@.subrange(0, i + 1));
        i += 1;
    }
    assert(b@.subrange(0, b@.len() as int) =~= b@);
}

/// Row `r` of a `rows x cols` frame lies within the frame.
proof fn lemma_row_in_frame(r: int, rows: int, cols: int)
    requires
        0 <= r < rows,
        0 <= cols,
    ensures
        0 <= r * cols,
        r * cols + cols <= rows * cols,
{
    assert(r * cols + cols == (r + 1) * cols) by (nonlinear_arith);
    assert((r + 1) * cols <= rows * cols) by (nonlinear_arith)
        requires
            r + 1 <= rows,
            0 <= cols,
    ;
    assert(r * cols >= 0) by (nonlinear_arith)
        requires
            r >= 0,
            cols >= 0,
    ;
}

/// A vector of `n` blank cells.
fn blank_cells(n: usize) -> (v: Vec<Cell>)
    ensures
        v@.len() == n,
        cells_v(v@) == blanks(n as nat),
{
    let mut v: Vec<Cell> = Vec::new();
    let mut i: usize = 0;
    while i < n
        invariant
            i <= n,
            v@.len() == i,
            cells_v(v@) == blanks(i as nat),
        decreases n - i,
    {
        let c = Cell::blank();
        let ghost v0 = v@;
        v.push(c);
        assert(cells_v(v@) =~= cells_v(v0).push(c@));
        assert(cells_v(v@) =~= blanks((i + 1) as nat));
        i += 1;
    }
    v
}


/// Whether cells `base..base + n` of two frames are the same.
fn rows_equal(a: &Vec<Cell>, b: &Vec<Cell>, base: usize, n: usize) -> (e: bool)
    requires
        base + n <= a@.len(),
        base + n <= b@.len(),
    ensures
        e == (cells_v(a@).subrange(base as int, base + n) == cells_v(b@).subrange(
            base as int,
            base + n,
        )),
{
    let alen = a.len();
    let mut k: usize = 0;
    while k < n
        invariant
            k <= n,
            alen == a@.len(),
            base + n <= a@.len(),
            base + n <= b@.len(),
            cells_v(a@).subrange(base as int, base + k) == cells_v(b@).subrange(
                base as int,
                base + k,
            ),
        decreases n - k,
    {
        if !a[base + k].same(&b[base + k]) {
            assert(cells_v(a@).subrange(base as int, base + n)[k as int] != cells_v(b@).subrange(
                base as int,
                base + n,
            )[k as int]);
            return false;
        }
        assert(cells_v(a@).subrange(base as int, base + k + 1) =~= cells_v(b@).subrange(
            base as int,
            base + k + 1,
        ));
        k += 1;
    }
    true
}

fn same_attrs(a: (u8, u8, bool, bool, bool, bool), b: (u8, u8, bool, bool, bool, bool)) -> (e: bool)
    ensures
        e == (a == b),
{
    a.0 == b.0 && a.1 == b.1 && a.2 == b.2 && a.3 == b.3 && a.4 == b.4 && a.5 == b.5
}

fn push_row_move(out: &mut Vec<u8>, r: usize)
    requires
        r < u64::MAX,
    ensures
        final(out)@ == old(out)@ + row_move(r as nat),
{
    out.push(0x1b);
    out.push(0x5b);
    push_dec_bytes(out, r as u64 + 1);
    out.push(0x3b);
    out.push(0x31);
    out.push(0x48);
    assert(out@ =~= old(out)@ + row_move(r as nat));
}

/// Append the bytes of cells `base..base + n` written from style `at`;
/// returns the style in force afterwards.
fn emit_row(
    out: &mut Vec<u8>,
    cells: &Vec<Cell>,
    base: usize,
    n: usize,
    at: (u8, u8, bool, bool, bool, bool),
) -> (after: (u8, u8, bool, bool, bool, bool))
    requires
        base + n <= cells@.len(),
    ensures
        final(out)@ == old(out)@ + emit_upto(
            cells_v(cells@).subrange(base as int, base + n),
            at,
            n as int,
        ),
        after == attr_before(cells_v(cells@).subrange(base as int, base + n), at, n as int),
{
    let ghost row = cells_v(cells@).subrange(base as int, base + n);
    let mut cur = at;
    let clen = cells.len();
    let mut c: usize = 0;
    while c < n
        invariant
            c <= n,
            clen == cells@.len(),
            base + n <= cells@.len(),
            row == cells_v(cells@).subrange(base as int, base + n),
            cur == attr_before(row, at, c as int),
            out@ == old(out)@ + emit_upto(row, at, c as int),
        decreases n - c,
    {
        let cell = &cells[base + c];
        assert(row[c as int] == cell@);
        let a = (cell.fg, cell.bg, cell.bold, cell.underline, cell.inverse, cell.italic);
        let ghost before = out@;
        if !same_attrs(a, cur) {
            let s = sgr(cell.fg, cell.bg, cell.bold, cell.underline, cell.inverse, cell.italic);
            push_bytes(out, s.as_str().as_bytes());
            cur = a;
        }
        let ghost mid = out@;
        if cell.ch.as_str().is_empty() {
            out.push(0x20);
        } else {
            push_bytes(out, cell.ch.as_str().as_bytes());
        }
        assert(out@ =~= old(out)@ + emit_upto(row, at, c + 1));
        c += 1;
    }
    cur
}

impl Canvas {
    /// Both frames hold `rows * cols` cells.
    pub open spec fn wf(&self) -> bool {
        &&& self.cells@.len() == self.rows * self.cols
        &&& self.prev@.len() == self.rows * self.cols
    }

    /// The frame being composed.
    pub open spec fn cur_v(&self) -> Seq<CellV> {
        cells_v(self.cells@)
    }

    /// The frame last drawn.
    pub open spec fn prev_v(&self) -> Seq<CellV> {
        cells_v(self.prev@)
    }

    /// A `rows x cols` canvas of blank cells.
    pub fn new(rows: usize, cols: usize) -> (cv: Canvas)
        requires
            rows * cols <= usize::MAX,
        ensures
            cv.wf(),
            cv.rows == rows,
            cv.cols == cols,
            cv.cur_v() == blanks((rows * cols) as nat),
            cv.prev_v() == blanks((rows * cols) as nat),
    {
        let cells = blank_cells(rows * cols);
        let prev = blank_cells(rows * cols);
        Canvas { rows, cols, cells, prev }
    }

    /// Change the size; both frames become blank.
    pub fn resize(&mut self, rows: usize, cols: usize)
        requires
            rows * cols <= usize::MAX,
        ensures
            final(self).wf(),
            final(self).rows == rows,
            final(self).cols == cols,
            final(self).cur_v() == blanks((rows * cols) as nat),
            final(self).prev_v() == blanks((rows * cols) as nat),
    {
        self.rows = rows;
        self.cols = cols;
        let n = rows * cols;
        self.cells = blank_cells(n);
        self.prev = blank_cells(n);
    }

    /// Reset every cell of the frame being composed to the default style.
    pub fn clear(&mut self)
        ensures
            final(self).rows == old(self).rows,
            final(self).cols == old(self).cols,
            final(self).prev == old(self).prev,
            final(self).cur_v() == blanks(old(self).cells@.len()),
    {
        let n = self.cells.len();
        self.cells = blank_cells(n);
    }

    /// Set a cell's text and style; empty text is stored as a space.
    pub fn set_cell(
        &mut self,
        r: usize,
        c: usize,
        ch: &str,
        fg: u8,
        bg: u8,
        bold: bool,
        underline: bool,
        inverse: bool,
        italic: bool,
    )
        requires
            r * old(self).cols + c < old(self).cells@.len(),
        ensures
            final(self).rows == old(self).rows,
            final(self).cols == old(self).cols,
            final(self).prev == old(self).prev,
            final(self).cur_v() == old(self).cur_v().update(
                r * old(self).cols + c,
                (if ch@.len() == 0 { seq![' '] } else { ch@ }, fg, bg, bold, underline, inverse, italic),
            ),
    {
        let n = self.cells.len();
        proof {
            assert(r * self.cols <= r * self.cols + c);
        }
        let idx = r * self.cols + c;
        let ch_owned = if ch.is_empty() {
            let mut s = String::new();
            push_char(&mut s, ' ');
            s
        } else {
            String::from_str(ch)
        };
        let cell = Cell { ch: ch_owned, fg, bg, bold, underline, inverse, italic };
        let ghost before = self.cells@;
        // Only replace a cell whose content or style differs.
        if !self.cells[idx].same(&cell) {
            self.cells.set(idx, cell);
        }
        assert(self.cur_v() =~= cells_v(before).update(
            idx as int,
            (if ch@.len() == 0 { seq![' '] } else { ch@ }, fg, bg, bold, underline, inverse, italic),
        ));
    }


    /// Draw the frame being composed: the bytes that bring the terminal from
    /// the last drawn frame to this one, writing only rows that changed. The
    /// two frames then trade places.
    pub fn flush(&mut self) -> (out: Vec<u8>)
        requires
            old(self).wf(),
        ensures
            final(self).wf(),
            final(self).rows == old(self).rows,
            final(self).cols == old(self).cols,
            out@ == frame_bytes(old(self).prev_v(), old(self).cur_v(), old(self).rows as int, old(self).cols as int),
            final(self).prev == old(self).cells,
            final(self).cells == old(self).prev,
    {
        let ghost pv = self.prev_v();
        let ghost cv = self.cur_v();
        let rows = self.rows;
        let cols = self.cols;
        let mut out: Vec<u8> = Vec::new();
        let mut at: (u8, u8, bool, bool, bool, bool) = (DEFAULT, DEFAULT, false, false, false, false);
        let mut opened = false;
        let mut r: usize = 0;
        let total = self.cells.len();
        while r < rows
            invariant
                r <= rows,
                rows == self.rows,
                cols == self.cols,
                total == self.cells@.len(),
                self.wf(),
                pv == self.prev_v(),
                cv == self.cur_v(),
                at == attrs_upto(pv, cv, cols as int, r as int),
                opened == changed_upto(pv, cv, cols as int, r as int),
                out@ == (if opened { reset_bytes() } else { Seq::empty() }) + rows_upto(
                    pv,
                    cv,
                    cols as int,
                    r as int,
                ),
                !opened ==> rows_upto(pv, cv, cols as int, r as int) == Seq::<u8>::empty(),
            decreases rows - r,
        {
            proof {
                lemma_row_in_frame(r as int, rows as int, cols as int);
            }
            let base = r * cols;
            let same = rows_equal(&self.prev, &self.cells, base, cols);
            assert(cells_v(self.prev@).subrange(base as int, base + cols) == row_of(pv, cols as int, r as int));
            assert(cells_v(self.cells@).subrange(base as int, base + cols) == row_of(cv, cols as int, r as int));
            let ghost out0 = out@;
            if !same {
                if !opened {
                    push_reset(&mut out);
                    opened = true;
                }
                push_row_move(&mut out, r);
                at = emit_row(&mut out, &self.cells, base, cols, at);
            }
            assert(out@ =~= (if opened { reset_bytes() } else { Seq::empty() }) + rows_upto(
                pv,
                cv,
                cols as int,
                r + 1,
            ));
            r += 1;
        }
        if opened {
            push_reset(&mut out);
        }
        assert(out@ =~= frame_bytes(pv, cv, rows as int, cols as int));
        std::mem::swap(&mut self.prev, &mut self.cells);
        out
    }

    /// Bytes that place the terminal cursor at a cell and show or hide it.
    pub fn park_cursor(&self, r: usize, c: usize, show: bool) -> (out: Vec<u8>)
        requires
            r < u64::MAX,
            c < u64::MAX,
        ensures
            out@ == park_bytes(r as nat, c as nat, show),
    {
        let mut out: Vec<u8> = Vec::new();
        out.push(0x1b);
        out.push(0x5b);
        out.push(0x3f);
        out.push(0x32);
        out.push(0x35);
        out.push(if show { 0x68 } else { 0x6c });
        out.push(0x1b);
        out.push(0x5b);
        push_dec_bytes(&mut out, r as u64 + 1);
        out.push(0x3b);
        push_dec_bytes(&mut out, c as u64 + 1);
        out.push(0x48);
        assert(out@ =~= park_bytes(r as nat, c as nat, show));
        out
    }
}

/// The terminal size to work with: what the window-size query reported
/// (rows, cols), when it answered with both non-zero; 24x80 otherwise.
pub fn window_size(reported: Option<(u16, u16)>) -> (d: (usize, usize))
    ensures
        d == (match reported {
            Some(rc) => if rc.0 > 0 && rc.1 > 0 {
                (rc.0 as usize, rc.1 as usize)
            } else {
                (24usize, 80usize)
            },
            None => (24usize, 80usize),
        }),
{
    match reported {
        Some((r, c)) => if r > 0 && c > 0 {
            (r as usize, c as usize)
        } else {
            (24, 80)
        },
        None => (24, 80),
    }
}

} // verus!
