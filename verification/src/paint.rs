//! Cell writes: what a widget draws, as an ordered list of writes that
//! a render target applies one after another (a later write to the same
//! cell replaces an earlier one), and the rectangular rings that the
//! bordered widgets are made of.
use vstd::prelude::*;
use crate::buffer::{CellStyle, Intensity};
use crate::color::Color;
use crate::layout::Rect;

verus! {

/// One cell write: where, which glyph, its colors and style, and whether
/// the cell covers what lies beneath it when layers are composited
/// (`opaque`) or is left see-through.
#[derive(Clone, Copy, Debug, PartialEq, Eq, Structural)]
pub struct Paint {
    pub x: u16,
    pub y: u16,
    pub symbol: char,
    pub fg: Color,
    pub bg: Color,
    pub style: CellStyle,
    pub opaque: bool,
}

/// The colors, style and coverage a run of writes shares.
#[derive(Clone, Copy, Debug, PartialEq, Eq, Structural)]
pub struct Pen {
    pub fg: Color,
    pub bg: Color,
    pub style: CellStyle,
    pub opaque: bool,
}

/// The plain style: normal intensity, no other attribute.
pub open spec fn plain_style() -> CellStyle {
    CellStyle {
        intensity: Intensity::Normal,
        underline: false,
        italic: false,
        reverse: false,
        strikethrough: false,
    }
}

/// The plain style.
pub fn plain() -> (r: CellStyle)
    ensures
        r == plain_style(),
{
    CellStyle {
        intensity: Intensity::Normal,
        underline: false,
        italic: false,
        reverse: false,
        strikethrough: false,
    }
}

/// The write of `symbol` at (`x`, `y`) with `pen`.
pub open spec fn paint_of(x: int, y: int, symbol: char, pen: Pen) -> Paint {
    Paint {
        x: x as u16,
        y: y as u16,
        symbol,
        fg: pen.fg,
        bg: pen.bg,
        style: pen.style,
        opaque: pen.opaque,
    }
}

/// The write of `symbol` at (`x`, `y`) with `pen`.
pub fn paint(x: u16, y: u16, symbol: char, pen: Pen) -> (r: Paint)
    ensures
        r == paint_of(x as int, y as int, symbol, pen),
{
    Paint { x, y, symbol, fg: pen.fg, bg: pen.bg, style: pen.style, opaque: pen.opaque }
}

/// What cell (`x`, `y`) shows after the writes `ps` are applied in
/// order: the last write to it, or `None` when none touches it.
pub open spec fn shown(ps: Seq<Paint>, x: int, y: int) -> Option<Paint>
    decreases ps.len(),
{
    if ps.len() == 0 {
        None
    } else if ps.last().x == x && ps.last().y == y {
        Some(ps.last())
    } else {
        shown(ps.drop_last(), x, y)
    }
}

/// Applying `a` then `b`: a cell shows `b`'s last write to it, or else
/// `a`'s.
pub proof fn lemma_shown_concat(a: Seq<Paint>, b: Seq<Paint>, x: int, y: int)
    ensures
        shown(a + b, x, y) == (if shown(b, x, y) is Some {
            shown(b, x, y)
        } else {
            shown(a, x, y)
        }),
    decreases b.len(),
{
    if b.len() == 0 {
        assert(a + b =~= a);
    } else {
        assert((a + b).drop_last() =~= a + b.drop_last());
        assert((a + b).last() == b.last());
        lemma_shown_concat(a, b.drop_last(), x, y);
    }
}

/// A border edge's glyphs: `mark` on every cell whose offset from the
/// edge's start leaves remainder 1 when divided by `period`, `base` on
/// the others. A plain edge has `mark == base`.
#[derive(Clone, Copy, Debug, PartialEq, Eq, Structural)]
pub struct EdgeGlyphs {
    pub base: char,
    pub mark: char,
    pub period: u16,
}

/// The glyph of the edge cell at `offset`.
pub open spec fn edge_glyph(e: EdgeGlyphs, offset: int) -> char {
    if e.period > 0 && offset % (e.period as int) == 1 {
        e.mark
    } else {
        e.base
    }
}

/// An edge of one repeated glyph.
pub open spec fn plain_edge_of(c: char) -> EdgeGlyphs {
    EdgeGlyphs { base: c, mark: c, period: 1 }
}

/// An edge of one repeated glyph.
pub fn plain_edge(c: char) -> (r: EdgeGlyphs)
    ensures
        r == plain_edge_of(c),
{
    EdgeGlyphs { base: c, mark: c, period: 1 }
}

fn edge_glyph_exec(e: EdgeGlyphs, offset: u16) -> (r: char)
    ensures
        r == edge_glyph(e, offset as int),
{
    if e.period > 0 && offset % e.period == 1 {
        e.mark
    } else {
        e.base
    }
}

/// A ring's glyphs: its top and bottom edges, its left and right edges,
/// and its four corners.
#[derive(Clone, Copy, Debug, PartialEq, Eq, Structural)]
pub struct RingGlyphs {
    pub horizontal: EdgeGlyphs,
    pub vertical: EdgeGlyphs,
    pub top_left: char,
    pub top_right: char,
    pub bottom_left: char,
    pub bottom_right: char,
}

/// The last column of `r`.
pub open spec fn right_col(r: Rect) -> int {
    r.x + r.width - 1
}

/// The last row of `r`.
pub open spec fn bottom_row(r: Rect) -> int {
    r.y + r.height - 1
}

/// The top and bottom edges of the first `n` columns of `r`, column by
/// column, the top cell before the bottom one.
pub open spec fn horizontal_edges(r: Rect, g: RingGlyphs, pen: Pen, n: int) -> Seq<Paint>
    decreases n,
{
    if n <= 0 {
        Seq::empty()
    } else {
        let c = edge_glyph(g.horizontal, n - 1);
        horizontal_edges(r, g, pen, n - 1) + seq![
            paint_of(r.x + n - 1, r.y as int, c, pen),
            paint_of(r.x + n - 1, bottom_row(r), c, pen),
        ]
    }
}

/// The left and right edges of the first `n` rows of `r`, row by row,
/// the left cell before the right one.
pub open spec fn vertical_edges(r: Rect, g: RingGlyphs, pen: Pen, n: int) -> Seq<Paint>
    decreases n,
{
    if n <= 0 {
        Seq::empty()
    } else {
        let c = edge_glyph(g.vertical, n - 1);
        vertical_edges(r, g, pen, n - 1) + seq![
            paint_of(r.x as int, r.y + n - 1, c, pen),
            paint_of(right_col(r), r.y + n - 1, c, pen),
        ]
    }
}

/// The four corners of `r`: top-left, top-right, bottom-left,
/// bottom-right.
pub open spec fn corners(r: Rect, g: RingGlyphs, pen: Pen) -> Seq<Paint> {
    seq![
        paint_of(r.x as int, r.y as int, g.top_left, pen),
        paint_of(right_col(r), r.y as int, g.top_right, pen),
        paint_of(r.x as int, bottom_row(r), g.bottom_left, pen),
        paint_of(right_col(r), bottom_row(r), g.bottom_right, pen),
    ]
}

/// The writes that draw a ring around the edge of `r`: both horizontal
/// edges, then both vertical edges, then the corners.
pub open spec fn ring(r: Rect, g: RingGlyphs, pen: Pen) -> Seq<Paint> {
    horizontal_edges(r, g, pen, r.width as int) + vertical_edges(r, g, pen, r.height as int)
        + corners(r, g, pen)
}

/// `r` lies within the coordinate range of a `u16`.
pub open spec fn in_u16_range(r: Rect) -> bool {
    r.x + r.width <= u16::MAX && r.y + r.height <= u16::MAX
}

/// What cell (`x`, `y`) shows once a ring is drawn around `r` (at least
/// 2x2): a corner glyph at the corners, the edge glyph for its offset
/// along the top and bottom rows and the left and right columns, and
/// nothing elsewhere.
pub open spec fn ring_cell(r: Rect, g: RingGlyphs, pen: Pen, x: int, y: int) -> Option<Paint> {
    let (l, t, rc, b) = (r.x as int, r.y as int, right_col(r), bottom_row(r));
    if x == l && y == t {
        Some(paint_of(x, y, g.top_left, pen))
    } else if x == rc && y == t {
        Some(paint_of(x, y, g.top_right, pen))
    } else if x == l && y == b {
        Some(paint_of(x, y, g.bottom_left, pen))
    } else if x == rc && y == b {
        Some(paint_of(x, y, g.bottom_right, pen))
    } else if (y == t || y == b) && l < x < rc {
        Some(paint_of(x, y, edge_glyph(g.horizontal, x - l), pen))
    } else if (x == l || x == rc) && t < y < b {
        Some(paint_of(x, y, edge_glyph(g.vertical, y - t), pen))
    } else {
        None
    }
}

proof fn lemma_pair_shown(p: Paint, q: Paint, x: int, y: int)
    ensures
        shown(seq![p, q], x, y) == (if q.x == x && q.y == y {
            Some(q)
        } else if p.x == x && p.y == y {
            Some(p)
        } else {
            None
        }),
{
    let s = seq![p, q];
    assert(s.last() == q);
    assert(s.drop_last() =~= seq![p]);
    assert(seq![p].last() == p);
    assert(seq![p].drop_last() =~= Seq::<Paint>::empty());
    assert(shown(Seq::<Paint>::empty(), x, y) is None);
    assert(shown(seq![p], x, y) == (if p.x == x && p.y == y {
        Some(p)
    } else {
        None
    }));
}

proof fn lemma_horizontal_edges_shown(
    r: Rect,
    g: RingGlyphs,
    pen: Pen,
    n: int,
    x: int,
    y: int,
)
    requires
        in_u16_range(r),
        r.height >= 2,
        0 <= n <= r.width,
        0 <= x <= u16::MAX,
        0 <= y <= u16::MAX,
    ensures
        shown(horizontal_edges(r, g, pen, n), x, y) == (if (y == r.y || y == bottom_row(r)) && r.x
            <= x < r.x + n {
            Some(paint_of(x, y, edge_glyph(g.horizontal, x - r.x), pen))
        } else {
            None
        }),
    decreases n,
{
    if n > 0 {
        let c = edge_glyph(g.horizontal, n - 1);
        let top = paint_of(r.x + n - 1, r.y as int, c, pen);
        let bot = paint_of(r.x + n - 1, bottom_row(r), c, pen);
        lemma_shown_concat(horizontal_edges(r, g, pen, n - 1), seq![top, bot], x, y);
        lemma_pair_shown(top, bot, x, y);
        lemma_horizontal_edges_shown(r, g, pen, n - 1, x, y);
    }
}

proof fn lemma_vertical_edges_shown(r: Rect, g: RingGlyphs, pen: Pen, n: int, x: int, y: int)
    requires
        in_u16_range(r),
        r.width >= 2,
        0 <= n <= r.height,
        0 <= x <= u16::MAX,
        0 <= y <= u16::MAX,
    ensures
        shown(vertical_edges(r, g, pen, n), x, y) == (if (x == r.x || x == right_col(r)) && r.y
            <= y < r.y + n {
            Some(paint_of(x, y, edge_glyph(g.vertical, y - r.y), pen))
        } else {
            None
        }),
    decreases n,
{
    if n > 0 {
        let c = edge_glyph(g.vertical, n - 1);
        let lft = paint_of(r.x as int, r.y + n - 1, c, pen);
        let rgt = paint_of(right_col(r), r.y + n - 1, c, pen);
        lemma_shown_concat(vertical_edges(r, g, pen, n - 1), seq![lft, rgt], x, y);
        lemma_pair_shown(lft, rgt, x, y);
        lemma_vertical_edges_shown(r, g, pen, n - 1, x, y);
    }
}

proof fn lemma_corners_shown(r: Rect, g: RingGlyphs, pen: Pen, x: int, y: int)
    requires
        in_u16_range(r),
        r.width >= 2,
        r.height >= 2,
        0 <= x <= u16::MAX,
        0 <= y <= u16::MAX,
    ensures
        shown(corners(r, g, pen), x, y) == (if (x == r.x || x == right_col(r)) && (y == r.y || y
            == bottom_row(r)) {
            ring_cell(r, g, pen, x, y)
        } else {
            None
        }),
{
    let cs = corners(r, g, pen);
    let a = paint_of(r.x as int, r.y as int, g.top_left, pen);
    let b = paint_of(right_col(r), r.y as int, g.top_right, pen);
    let c = paint_of(r.x as int, bottom_row(r), g.bottom_left, pen);
    let d = paint_of(right_col(r), bottom_row(r), g.bottom_right, pen);
    assert(cs =~= seq![a, b] + seq![c, d]);
    lemma_shown_concat(seq![a, b], seq![c, d], x, y);
    lemma_pair_shown(a, b, x, y);
    lemma_pair_shown(c, d, x, y);
}

/// Law: once a ring is drawn around a rect of at least 2x2 cells, each
/// cell shows exactly what `ring_cell` says — the corner glyphs at the
/// corners (over the edges drawn before them), the edge glyphs along
/// the sides, and nothing inside or outside the ring.
pub proof fn lemma_ring_shows(r: Rect, g: RingGlyphs, pen: Pen, x: int, y: int)
    requires
        in_u16_range(r),
        r.width >= 2,
        r.height >= 2,
        0 <= x <= u16::MAX,
        0 <= y <= u16::MAX,
    ensures
        shown(ring(r, g, pen), x, y) == ring_cell(r, g, pen, x, y),
{
    let h = horizontal_edges(r, g, pen, r.width as int);
    let v = vertical_edges(r, g, pen, r.height as int);
    let c = corners(r, g, pen);
    lemma_shown_concat(h + v, c, x, y);
    lemma_shown_concat(h, v, x, y);
    lemma_horizontal_edges_shown(r, g, pen, r.width as int, x, y);
    lemma_vertical_edges_shown(r, g, pen, r.height as int, x, y);
    lemma_corners_shown(r, g, pen, x, y);
}

/// Appends the writes that draw a ring around `r` to `out`.
pub fn push_ring(out: &mut Vec<Paint>, r: Rect, g: RingGlyphs, pen: Pen)
    requires
        in_u16_range(r),
        r.width >= 1,
        r.height >= 1,
    ensures
        final(out)@ == old(out)@ + ring(r, g, pen),
{
    let ghost start = out@;
    let bottom = r.y + r.height - 1;
    let right = r.x + r.width - 1;
    let mut i: u16 = 0;
    while i < r.width
        invariant
            in_u16_range(r),
            r.width >= 1,
            r.height >= 1,
            bottom == bottom_row(r),
            i <= r.width,
            out@ == start + horizontal_edges(r, g, pen, i as int),
        decreases r.width - i,
    {
        let c = edge_glyph_exec(g.horizontal, i);
        out.push(paint(r.x + i, r.y, c, pen));
        out.push(paint(r.x + i, bottom, c, pen));
        i = i + 1;
        proof {
            assert(out@ =~= start + horizontal_edges(r, g, pen, i as int));
        }
    }
    let ghost mid = out@;
    let mut j: u16 = 0;
    while j < r.height
        invariant
            in_u16_range(r),
            r.width >= 1,
            r.height >= 1,
            right == right_col(r),
            j <= r.height,
            out@ == mid + vertical_edges(r, g, pen, j as int),
        decreases r.height - j,
    {
        let c = edge_glyph_exec(g.vertical, j);
        out.push(paint(r.x, r.y + j, c, pen));
        out.push(paint(right, r.y + j, c, pen));
        j = j + 1;
        proof {
            assert(out@ =~= mid + vertical_edges(r, g, pen, j as int));
        }
    }
    out.push(paint(r.x, r.y, g.top_left, pen));
    out.push(paint(right, r.y, g.top_right, pen));
    out.push(paint(r.x, bottom, g.bottom_left, pen));
    out.push(paint(right, bottom, g.bottom_right, pen));
    assert(out@ =~= start + ring(r, g, pen));
}

/// The writes of the first `n` characters of `cs` along row `y`, one per
/// column from column `x`.
pub open spec fn row_paints(x: int, y: int, cs: Seq<char>, n: int, pen: Pen) -> Seq<Paint> {
    Seq::new(n as nat, |i: int| paint_of(x + i, y, cs[i], pen))
}

/// Appends the writes of the first `n` characters of `cs` along row `y`
/// from column `x`.
pub fn push_row(out: &mut Vec<Paint>, x: u16, y: u16, cs: &Vec<char>, n: usize, pen: Pen)
    requires
        n <= cs@.len(),
        x + n <= u16::MAX + 1,
    ensures
        final(out)@ == old(out)@ + row_paints(x as int, y as int, cs@, n as int, pen),
{
    let ghost start = out@;
    let mut i: usize = 0;
    while i < n
        invariant
            n <= cs@.len(),
            x + n <= u16::MAX + 1,
            i <= n,
            out@ == start + row_paints(x as int, y as int, cs@, i as int, pen),
        decreases n - i,
    {
        out.push(paint(x + (i as u16), y, cs[i], pen));
        i = i + 1;
        assert(out@ =~= start + row_paints(x as int, y as int, cs@, i as int, pen));
    }
}

/// What cell (`x`, `y`) shows after a row of writes: the character
/// written there, or `None` off the row.
pub proof fn lemma_row_shown(x0: int, y0: int, cs: Seq<char>, n: int, pen: Pen, x: int, y: int)
    requires
        0 <= x0,
        0 <= n <= cs.len(),
        x0 + n <= u16::MAX + 1,
        0 <= y0 <= u16::MAX,
        0 <= x <= u16::MAX,
        0 <= y <= u16::MAX,
    ensures
        shown(row_paints(x0, y0, cs, n, pen), x, y) == (if y == y0 && x0 <= x < x0 + n {
            Some(paint_of(x, y, cs[x - x0], pen))
        } else {
            None
        }),
    decreases n,
{
    if n > 0 {
        assert(row_paints(x0, y0, cs, n, pen).drop_last() =~= row_paints(x0, y0, cs, n - 1, pen));
        lemma_row_shown(x0, y0, cs, n - 1, pen, x, y);
    }
}

/// `r` shrunk by one cell on every side (to nothing along an axis
/// shorter than two cells).
pub open spec fn shrunk(r: Rect) -> Rect {
    Rect {
        x: (r.x + 1) as u16,
        y: (r.y + 1) as u16,
        width: if r.width >= 2 {
            (r.width - 2) as u16
        } else {
            0
        },
        height: if r.height >= 2 {
            (r.height - 2) as u16
        } else {
            0
        },
    }
}

/// `r` shrunk by one cell on every side.
pub fn shrink(r: Rect) -> (s: Rect)
    requires
        r.x < u16::MAX,
        r.y < u16::MAX,
    ensures
        s == shrunk(r),
{
    Rect {
        x: r.x + 1,
        y: r.y + 1,
        width: r.width.saturating_sub(2),
        height: r.height.saturating_sub(2),
    }
}

} // verus!
