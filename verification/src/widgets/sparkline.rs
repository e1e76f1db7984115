//! The layout of a single-line sparkline: one column per value of a
//! trailing window, each a block glyph of one of eight heights. Scaling
//! a value to its height is a fraction of the window's range the caller
//! works out; this module picks the window and draws the heights.
use vstd::prelude::*;
use crate::color::Color;
use crate::layout::Rect;
use crate::paint::{Paint, Pen, plain, plain_style, paint, paint_of};

verus! {

/// The number of heights a column can show.
pub const LEVEL_COUNT: usize = 8;

/// The height every column shows when all values are equal: the middle.
pub const FLAT_LEVEL: usize = 4;

/// The glyph of height `level` (0 lowest), held at the tallest.
pub open spec fn level_char(level: int) -> char {
    if level <= 0 {
        '▁'
    } else if level == 1 {
        '▂'
    } else if level == 2 {
        '▃'
    } else if level == 3 {
        '▄'
    } else if level == 4 {
        '▅'
    } else if level == 5 {
        '▆'
    } else if level == 6 {
        '▇'
    } else {
        '█'
    }
}

/// The glyph of height `level` (0 lowest), held at the tallest.
pub fn level_glyph(level: usize) -> (r: char)
    ensures
        r == level_char(level as int),
{
    if level == 0 {
        '▁'
    } else if level == 1 {
        '▂'
    } else if level == 2 {
        '▃'
    } else if level == 3 {
        '▄'
    } else if level == 4 {
        '▅'
    } else if level == 5 {
        '▆'
    } else if level == 6 {
        '▇'
    } else {
        '█'
    }
}

/// Where the shown window of `len` values starts: the last `width` of
/// them, or all when there are fewer.
pub fn window_start(len: usize, width: u16) -> (r: usize)
    ensures
        r == if len <= width {
            0
        } else {
            len - width
        },
{
    if len <= width as usize {
        0
    } else {
        len - width as usize
    }
}

/// The pen of a sparkline column in `color`: on the terminal
/// background, plain, opaque.
pub open spec fn spark_pen(color: Color) -> Pen {
    Pen { fg: color, bg: Color::Reset, style: plain_style(), opaque: true }
}

/// The writes of a sparkline whose columns have heights `levels`: one
/// per level along `area`'s top row from its left edge.
pub open spec fn spark_paints(levels: Seq<usize>, area: Rect, color: Color) -> Seq<Paint> {
    Seq::new(
        levels.len(),
        |i: int| paint_of(area.x + i, area.y as int, level_char(levels[i] as int), spark_pen(color)),
    )
}

/// The writes of the columns with heights `levels`, left-anchored on
/// `area`'s top row.
pub fn sparkline_paints(levels: &[usize], area: Rect, color: Color) -> (r: Vec<Paint>)
    requires
        area.x + levels@.len() <= u16::MAX + 1,
    ensures
        r@ == spark_paints(levels@, area, color),
{
    let pen = Pen { fg: color, bg: Color::Reset, style: plain(), opaque: true };
    let mut out: Vec<Paint> = Vec::new();
    let mut i: usize = 0;
    while i < levels.len()
        invariant
            area.x + levels@.len() <= u16::MAX + 1,
            i <= levels@.len(),
            out@ == Seq::new(
                i as nat,
                |k: int| paint_of(area.x + k, area.y as int, level_char(levels@[k] as int), pen),
            ),
        decreases levels.len() - i,
    {
        out.push(paint(area.x + (i as u16), area.y, level_glyph(levels[i]), pen));
        i = i + 1;
        assert(out@ =~= Seq::new(
            i as nat,
            |k: int| paint_of(area.x + k, area.y as int, level_char(levels@[k] as int), pen),
        ));
    }
    out
}

} // verus!
