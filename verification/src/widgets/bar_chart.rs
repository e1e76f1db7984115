//! The layout of a horizontal bar chart: one labeled row per item, the
//! labels left-aligned and clipped, every bar starting at a common
//! column one past the longest label. How much of each bar is filled is
//! a fraction (value over maximum) the caller works out; this module
//! places the label and the filled cells.
use vstd::prelude::*;
use crate::color::Color;
use crate::layout::Rect;
use crate::paint::{Paint, Pen, plain, plain_style, paint, paint_of, push_row, row_paints};
use crate::text::str_chars;

verus! {

/// The longest of `lens`.
pub open spec fn max_len(lens: Seq<nat>) -> nat
    decreases lens.len(),
{
    if lens.len() == 0 {
        0
    } else {
        let rest = max_len(lens.drop_last());
        if lens.last() > rest {
            lens.last()
        } else {
            rest
        }
    }
}

/// The number of characters of each label.
pub open spec fn label_lens(labels: Seq<&str>) -> Seq<nat> {
    labels.map_values(|l: &str| l@.len())
}

/// The label column's width: the longest label's character count, in
/// the low 16 bits.
pub fn label_width(labels: &[&str]) -> (r: u16)
    ensures
        r == max_len(label_lens(labels@)) as u16,
{
    let mut best: usize = 0;
    let mut i: usize = 0;
    while i < labels.len()
        invariant
            i <= labels@.len(),
            best == max_len(label_lens(labels@.take(i as int))),
        decreases labels.len() - i,
    {
        let n = str_chars(labels[i]).len();
        proof {
            let pre = labels@.take(i as int);
            let next = labels@.take(i + 1);
            assert(label_lens(next).drop_last() =~= label_lens(pre));
            assert(label_lens(next).last() == labels@[i as int]@.len());
        }
        if n > best {
            best = n;
        }
        i = i + 1;
    }
    assert(labels@.take(i as int) =~= labels@);
    #[verifier::truncate]
    (best as u16)
}

/// The pen of a chart cell in `color`: on the terminal background,
/// plain, opaque.
pub open spec fn chart_pen(color: Color) -> Pen {
    Pen { fg: color, bg: Color::Reset, style: plain_style(), opaque: true }
}

/// The smallest of `a`, `b` and `c`.
pub open spec fn min3(a: int, b: int, c: int) -> int {
    if a <= b && a <= c {
        a
    } else if b <= c {
        b
    } else {
        c
    }
}

/// The column a row's bar starts at: one past the label column, held at
/// the area's right edge.
pub open spec fn bar_start(area: Rect, label_width: int) -> int {
    if area.x + label_width + 1 <= area.x + area.width {
        area.x + label_width + 1
    } else {
        area.x + area.width
    }
}

/// The label cells of a row at row `y`: the label's characters from the
/// area's left edge, up to the label column's width and the area's
/// right edge.
pub open spec fn label_paints(area: Rect, y: int, label: Seq<char>, label_width: int, color: Color) -> Seq<
    Paint,
> {
    row_paints(
        area.x as int,
        y,
        label,
        min3(label.len() as int, label_width, area.width as int),
        chart_pen(color),
    )
}

/// One row of the chart, laid out: the label cells, and where the bar
/// starts and how many cells it can span.
pub struct BarRow {
    pub label: Vec<Paint>,
    pub bar_x: u16,
    pub bar_space: u16,
}

/// Lays out the row at `y`: its label and the room its bar has.
pub fn bar_row(area: Rect, y: u16, label: &str, label_width: u16, color: Color) -> (r: BarRow)
    requires
        area.x + area.width <= u16::MAX,
        area.x + label_width + 1 <= u16::MAX,
    ensures
        r.label@ == label_paints(area, y as int, label@, label_width as int, color),
        r.bar_x == bar_start(area, label_width as int),
        r.bar_space == area.x + area.width - bar_start(area, label_width as int),
{
    let cs = str_chars(label);
    let mut n: usize = cs.len();
    if (label_width as usize) < n {
        n = label_width as usize;
    }
    if (area.width as usize) < n {
        n = area.width as usize;
    }
    let pen = Pen { fg: color, bg: Color::Reset, style: plain(), opaque: true };
    let mut out: Vec<Paint> = Vec::new();
    push_row(&mut out, area.x, y, &cs, n, pen);
    let right: u32 = area.x as u32 + area.width as u32;
    let start: u32 = area.x as u32 + label_width as u32 + 1;
    let bar_x: u16 = if start <= right {
        start as u16
    } else {
        right as u16
    };
    let bar_space: u16 = (right - bar_x as u32) as u16;
    BarRow { label: out, bar_x, bar_space }
}

/// The filled cells of a bar: `█` from `bar_x`, `filled` of them but no
/// more than `bar_space`.
pub open spec fn bar_paints(bar_x: int, y: int, filled: int, bar_space: int, color: Color) -> Seq<
    Paint,
> {
    Seq::new(
        (if filled <= bar_space {
            filled
        } else {
            bar_space
        }) as nat,
        |i: int| paint_of(bar_x + i, y, '█', chart_pen(color)),
    )
}

/// The writes of a bar at row `y` filled to `filled` cells of its room.
pub fn bar_cells(bar_x: u16, y: u16, filled: u16, bar_space: u16, color: Color) -> (r: Vec<Paint>)
    requires
        bar_x + (if filled <= bar_space {
            filled
        } else {
            bar_space
        }) <= u16::MAX + 1,
    ensures
        r@ == bar_paints(bar_x as int, y as int, filled as int, bar_space as int, color),
{
    let n: u16 = if filled <= bar_space {
        filled
    } else {
        bar_space
    };
    let pen = Pen { fg: color, bg: Color::Reset, style: plain(), opaque: true };
    let mut out: Vec<Paint> = Vec::new();
    let mut i: u16 = 0;
    while i < n
        invariant
            bar_x + n <= u16::MAX + 1,
            n <= bar_space,
            i <= n,
            out@ == Seq::new(i as nat, |k: int| paint_of(bar_x + k, y as int, '█', pen)),
        decreases n - i,
    {
        out.push(paint(bar_x + i, y, '█', pen));
        i = i + 1;
        assert(out@ =~= Seq::new(i as nat, |k: int| paint_of(bar_x + k, y as int, '█', pen)));
    }
    out
}

} // verus!
