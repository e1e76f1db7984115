//! Rasterizes a captured terminal screen into RGBA pixels: one 16x16
//! block per cell, built from 2x-upscaled 8x8 glyphs. Approximates bold,
//! reverse video and underline; italic, dim and strikethrough are not
//! drawn.
//!
//! What a screen shows is read once, cell by cell, into
//! `ObservableCell`s; rasterizing reads only those, and anything that
//! compares two screens for "did anything visible change" compares
//! those same values, so the two can never disagree.
use vstd::prelude::*;
use crate::snapshot::glyph::{GlyphError, glyph, glyph_for};
use crate::snapshot::color::{
    ScreenColor, Rgb, rgb, color_rgb, background_rgb, brightened, to_rgb, bg_to_rgb, brighten,
};

verus! {

/// A codepoint at a given (row, col) that no glyph table covers.
#[derive(Debug, Clone, Copy, PartialEq, Eq, Structural)]
pub enum RenderError {
    /// The unmapped-glyph error, plus the cell position that hit it.
    Glyph(GlyphError, u16, u16),
}

/// What a screen parser holds for one cell: the first character of its
/// contents (`None` for an empty cell), its colors, and the attributes
/// rasterizing acts on.
#[derive(Clone, Copy, Debug, PartialEq, Eq, Structural)]
pub struct ParsedCell {
    pub first: Option<char>,
    pub fg: ScreenColor,
    pub bg: ScreenColor,
    pub bold: bool,
    pub underline: bool,
    pub inverse: bool,
}

/// One cell as it reaches the rasterizer: its glyph, its resolved
/// foreground and background, and the three attributes drawn.
#[derive(Clone, Copy, Debug, PartialEq, Eq, Structural)]
pub struct ObservableCell {
    pub ch: char,
    pub fg: Rgb,
    pub bg: Rgb,
    pub bold: bool,
    pub underline: bool,
    pub inverse: bool,
}

/// The observable state of a parsed cell; a position with no cell at
/// all is a blank in the default foreground on black.
pub open spec fn observed(cell: Option<ParsedCell>) -> ObservableCell {
    match cell {
        Some(c) => ObservableCell {
            ch: match c.first {
                Some(ch) => ch,
                None => ' ',
            },
            fg: color_rgb(c.fg),
            bg: background_rgb(c.bg),
            bold: c.bold,
            underline: c.underline,
            inverse: c.inverse,
        },
        None => ObservableCell {
            ch: ' ',
            fg: color_rgb(ScreenColor::Default),
            bg: rgb(0, 0, 0),
            bold: false,
            underline: false,
            inverse: false,
        },
    }
}

/// Extracts one cell's observable state.
pub fn observable_cell(cell: Option<ParsedCell>) -> (r: ObservableCell)
    ensures
        r == observed(cell),
{
    match cell {
        Some(c) => ObservableCell {
            ch: match c.first {
                Some(ch) => ch,
                None => ' ',
            },
            fg: to_rgb(c.fg),
            bg: bg_to_rgb(c.bg),
            bold: c.bold,
            underline: c.underline,
            inverse: c.inverse,
        },
        None => ObservableCell {
            ch: ' ',
            fg: to_rgb(ScreenColor::Default),
            bg: Rgb { r: 0, g: 0, b: 0 },
            bold: false,
            underline: false,
            inverse: false,
        },
    }
}

/// The observable state of every cell, in the order given (row-major
/// for a whole screen).
pub fn observable_screen(cells: &[Option<ParsedCell>]) -> (r: Vec<ObservableCell>)
    ensures
        r@.len() == cells@.len(),
        forall|k: int| 0 <= k < cells@.len() ==> r@[k] == observed(#[trigger] cells@[k]),
{
    let mut out: Vec<ObservableCell> = Vec::new();
    let mut k: usize = 0;
    while k < cells.len()
        invariant
            k <= cells@.len(),
            out@.len() == k,
            forall|j: int| 0 <= j < k ==> out@[j] == observed(#[trigger] cells@[j]),
        decreases cells.len() - k,
    {
        out.push(observable_cell(cells[k]));
        k = k + 1;
    }
    out
}

/// Law: rasterizing reads nothing but the observable cells — two
/// screens whose cells are observed alike render to the same bytes, so
/// comparing observations can never miss a change that would show.
pub proof fn lemma_rendering_reads_only_observations(
    cols: int,
    a: Seq<Option<ParsedCell>>,
    b: Seq<Option<ParsedCell>>,
    k: int,
)
    requires
        a.len() == b.len(),
        forall|i: int| 0 <= i < a.len() ==> observed(#[trigger] a[i]) == observed(b[i]),
    ensures
        frame_byte(cols, a.map_values(|c: Option<ParsedCell>| observed(c)), k) == frame_byte(
            cols,
            b.map_values(|c: Option<ParsedCell>| observed(c)),
            k,
        ),
{
    let oa = a.map_values(|c: Option<ParsedCell>| observed(c));
    let ob = b.map_values(|c: Option<ParsedCell>| observed(c));
    assert(oa =~= ob);
}

/// A rasterized screen: `width` x `height` pixels, four bytes (red,
/// green, blue, alpha) each, row by row.
#[derive(Debug)]
pub struct Frame {
    pub width: u32,
    pub height: u32,
    pub rgba: Vec<u8>,
}

/// The foreground and background a cell is drawn in: bold lightens the
/// foreground, then reverse video exchanges the two.
pub open spec fn drawn_colors(c: ObservableCell) -> (Rgb, Rgb) {
    let fg = if c.bold {
        brightened(c.fg)
    } else {
        c.fg
    };
    if c.inverse {
        (c.bg, fg)
    } else {
        (fg, c.bg)
    }
}

/// Whether bit `x` of an 8x8 bitmap's row `y` is set.
pub open spec fn glyph_bit(bitmap: Seq<u8>, x: int, y: int) -> bool {
    (bitmap[y] >> (x as u8)) & 1u8 == 1u8
}

/// The pixel at (`lx`, `ly`) of a cell's 16x16 block: the underline on
/// the block's bottom row, else the foreground where the glyph's
/// (2x-scaled) bit is set, else the background.
pub open spec fn cell_pixel(c: ObservableCell, bitmap: Seq<u8>, lx: int, ly: int) -> Rgb {
    let (fg, bg) = drawn_colors(c);
    if c.underline && ly == 15 {
        fg
    } else if glyph_bit(bitmap, lx / 2, ly / 2) {
        fg
    } else {
        bg
    }
}

/// The pixel at (`x`, `y`) of the image of a screen `cols` cells wide.
pub open spec fn screen_pixel(cols: int, cells: Seq<ObservableCell>, x: int, y: int) -> Rgb {
    let c = cells[(y / 16) * cols + x / 16];
    cell_pixel(c, glyph(c.ch).unwrap(), x % 16, y % 16)
}

/// Channel `i` of a pixel: red, green, blue, then an opaque alpha.
pub open spec fn channel(p: Rgb, i: int) -> u8 {
    if i == 0 {
        p.r
    } else if i == 1 {
        p.g
    } else if i == 2 {
        p.b
    } else {
        255
    }
}

/// Byte `k` of the image of a screen `cols` cells wide.
pub open spec fn frame_byte(cols: int, cells: Seq<ObservableCell>, k: int) -> u8 {
    let w = cols * 16;
    let p = k / 4;
    channel(screen_pixel(cols, cells, p % w, p / w), k % 4)
}

/// Every cell's character has a glyph.
pub open spec fn all_mapped(cells: Seq<ObservableCell>) -> bool {
    forall|k: int| 0 <= k < cells.len() ==> (#[trigger] glyph(cells[k].ch)) is Some
}

/// Cell `k` is the first, in order, whose character has no glyph.
pub open spec fn first_unmapped(cells: Seq<ObservableCell>, k: int) -> bool {
    &&& 0 <= k < cells.len()
    &&& glyph(cells[k].ch) is None
    &&& forall|j: int| 0 <= j < k ==> (#[trigger] glyph(cells[j].ch)) is Some
}

/// The bytes of a rows x cols screen's image fit in memory.
pub open spec fn fits_in_memory(rows: int, cols: int) -> bool {
    rows * cols * 1024 <= usize::MAX
}

proof fn lemma_position(t: int, w: int, x: int, y: int)
    requires
        w > 0,
        0 <= x < w,
        t == y * w + x,
    ensures
        t % w == x,
        t / w == y,
{
    vstd::arithmetic::div_mod::lemma_fundamental_div_mod_converse(t, w, y, x);
}

proof fn lemma_cell_index_in_range(rows: int, cols: int, x: int, y: int)
    requires
        rows > 0,
        cols > 0,
        0 <= x < cols * 16,
        0 <= y < rows * 16,
    ensures
        0 <= (y / 16) * cols + x / 16 < rows * cols,
{
    assert(x / 16 < cols);
    assert(y / 16 < rows);
    assert(0 <= (y / 16) * cols) by (nonlinear_arith)
        requires
            y / 16 >= 0,
            cols > 0,
    ;
    assert((y / 16) * cols + x / 16 < rows * cols) by (nonlinear_arith)
        requires
            0 <= y / 16 < rows,
            0 <= x / 16 < cols,
    ;
}

/// What rasterizing a `rows` x `cols` screen whose cells are `cells`,
/// row by row, gives: an image `cols * 16` pixels wide and `rows * 16`
/// high, each pixel the cell's glyph in its drawn colors — or, when some
/// cell's character has no glyph, the first such cell in that order,
/// with its row and column.
pub open spec fn rendered(rows: u16, cols: u16, cells: Seq<ObservableCell>, r: Result<
    Frame,
    RenderError,
>) -> bool {
    &&& (r is Ok <==> all_mapped(cells))
    &&& (r matches Err(e) ==> exists|k: int|
        first_unmapped(cells, k) && e == RenderError::Glyph(
            GlyphError::Unmapped(cells[k].ch),
            (k / cols as int) as u16,
            (k % cols as int) as u16,
        ))
    &&& (r matches Ok(f) ==> {
        &&& f.width == cols * 16
        &&& f.height == rows * 16
        &&& f.rgba@.len() == rows * cols * 1024
        &&& forall|x: int, y: int, i: int|
            #![trigger channel(screen_pixel(cols as int, cells, x, y), i)]
            0 <= x < cols * 16 && 0 <= y < rows * 16 && 0 <= i < 4 ==> f.rgba@[4 * (y * (cols
                * 16) + x) + i] == channel(screen_pixel(cols as int, cells, x, y), i)
    })
}

/// Rasterizes a `rows` x `cols` screen whose cells are given row by
/// row: an image `cols * 16` pixels wide and `rows * 16` high, or the
/// first cell (in that order) whose character has no glyph, with its
/// row and column.
#[verifier::rlimit(40)]
pub fn render_cells(rows: u16, cols: u16, cells: &[ObservableCell]) -> (r: Result<
    Frame,
    RenderError,
>)
    requires
        cells@.len() == rows * cols,
        fits_in_memory(rows as int, cols as int),
    ensures
        rendered(rows, cols, cells@, r),
{
    let n = cells.len();
    let mut bitmaps: Vec<[u8; 8]> = Vec::new();
    let mut k: usize = 0;
    while k < n
        invariant
            n == cells@.len(),
            n == rows * cols,
            k <= n,
            bitmaps@.len() == k,
            forall|j: int| 0 <= j < k ==> glyph(#[trigger] cells@[j].ch) == Some(bitmaps@[j]@),
        decreases n - k,
    {
        match glyph_for(cells[k].ch) {
            Ok(b) => {
                bitmaps.push(b);
            },
            Err(e) => {
                proof {
                    assert(cols > 0);
                    assert((k as int) / (cols as int) < rows) by (nonlinear_arith)
                        requires
                            0 <= k < rows * cols,
                            cols > 0,
                    ;
                    assert(first_unmapped(cells@, k as int));
                }
                let row = (k / (cols as usize)) as u16;
                let col = (k % (cols as usize)) as u16;
                return Err(RenderError::Glyph(e, row, col));
            },
        }
        k = k + 1;
    }
    assert(all_mapped(cells@));
    let w: usize = cols as usize * 16;
    let h: usize = rows as usize * 16;
    proof {
        assert(w * h * 4 == rows * cols * 1024) by (nonlinear_arith)
            requires
                w == cols * 16,
                h == rows * 16,
        ;
    }
    let mut out: Vec<u8> = Vec::new();
    let mut y: usize = 0;
    while y < h
        invariant
            n == cells@.len(),
            n == rows * cols,
            w == cols * 16,
            h == rows * 16,
            w * h * 4 <= usize::MAX,
            bitmaps@.len() == n,
            forall|j: int| 0 <= j < n ==> glyph(#[trigger] cells@[j].ch) == Some(bitmaps@[j]@),
            y <= h,
            out@.len() == 4 * (y * w),
            forall|j: int| 0 <= j < out@.len() ==> out@[j] == frame_byte(cols as int, cells@, j),
        decreases h - y,
    {
        let mut x: usize = 0;
        while x < w
            invariant
                n == cells@.len(),
                n == rows * cols,
                w == cols * 16,
                h == rows * 16,
                w * h * 4 <= usize::MAX,
                bitmaps@.len() == n,
                forall|j: int|
                    0 <= j < n ==> glyph(#[trigger] cells@[j].ch) == Some(bitmaps@[j]@),
                y < h,
                x <= w,
                out@.len() == 4 * (y * w + x),
                forall|j: int|
                    0 <= j < out@.len() ==> out@[j] == frame_byte(cols as int, cells@, j),
            decreases w - x,
        {
            proof {
                lemma_cell_index_in_range(rows as int, cols as int, x as int, y as int);
                assert(y * w + x < w * h) by (nonlinear_arith)
                    requires
                        0 <= x < w,
                        0 <= y < h,
                ;
            }
            let idx = (y / 16) * (cols as usize) + x / 16;
            let c = cells[idx];
            let bitmap = bitmaps[idx];
            let mut fg = c.fg;
            let mut bg = c.bg;
            if c.bold {
                fg = brighten(fg);
            }
            if c.inverse {
                let t = fg;
                fg = bg;
                bg = t;
            }
            let lx = x % 16;
            let ly = y % 16;
            let gy = ly / 2;
            let gx = (lx / 2) as u8;
            let row_bits = bitmap[gy];
            let set = (row_bits >> gx) & 1 == 1;
            let p = if c.underline && ly == 15 {
                fg
            } else if set {
                fg
            } else {
                bg
            };
            let ghost base = out@.len() as int;
            let ghost t = (y * w + x) as int;
            proof {
                assert(p == screen_pixel(cols as int, cells@, x as int, y as int));
                lemma_position(t, w as int, x as int, y as int);
                assert forall|i: int| 0 <= i < 4 implies frame_byte(cols as int, cells@, base + i)
                    == channel(p, i) by {
                    assert((base + i) / 4 == t);
                    assert((base + i) % 4 == i);
                }
            }
            out.push(p.r);
            out.push(p.g);
            out.push(p.b);
            out.push(255u8);
            proof {
                assert(frame_byte(cols as int, cells@, base) == channel(p, 0));
                assert(frame_byte(cols as int, cells@, base + 1) == channel(p, 1));
                assert(frame_byte(cols as int, cells@, base + 2) == channel(p, 2));
                assert(frame_byte(cols as int, cells@, base + 3) == channel(p, 3));
            }
            x = x + 1;
        }
        assert((y + 1) * w == y * w + w) by (nonlinear_arith);
        y = y + 1;
    }
    assert(out@.len() == 4 * (w * h)) by (nonlinear_arith)
        requires
            out@.len() == 4 * (y * w),
            y == h,
    ;
    proof {
        assert forall|x: int, y: int, i: int|
            0 <= x < cols * 16 && 0 <= y < rows * 16 && 0 <= i < 4 implies out@[4 * (y * (cols
            * 16) + x) + i] == #[trigger] channel(screen_pixel(cols as int, cells@, x, y), i) by {
            let t = y * (cols * 16) + x;
            lemma_position(t, w as int, x, y);
            assert(t < w * h) by (nonlinear_arith)
                requires
                    0 <= x < w,
                    0 <= y < h,
                    t == y * w + x,
            ;
            assert((4 * t + i) / 4 == t);
            assert((4 * t + i) % 4 == i);
            assert(out@[4 * t + i] == frame_byte(cols as int, cells@, 4 * t + i));
        }
    }
    Ok(Frame { width: (cols as u32) * 16, height: (rows as u32) * 16, rgba: out })
}

/// Rasterizes a `rows` x `cols` screen as a parser holds it, cells row by
/// row: each read into its observable state, then drawn.
pub fn render_parsed(rows: u16, cols: u16, cells: &[Option<ParsedCell>]) -> (r: Result<
    Frame,
    RenderError,
>)
    requires
        cells@.len() == rows * cols,
        fits_in_memory(rows as int, cols as int),
    ensures
        rendered(rows, cols, cells@.map_values(|c: Option<ParsedCell>| observed(c)), r),
{
    let obs = observable_screen(cells);
    assert(obs@ =~= cells@.map_values(|c: Option<ParsedCell>| observed(c)));
    render_cells(rows, cols, &obs)
}

} // verus!
