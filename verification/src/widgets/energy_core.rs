//! Segmented progress bar that sparks when full. The fill's ramp toward
//! white is a color interpolation the caller applies to the filled
//! cells; this module lays the bar out.
use vstd::prelude::*;
use crate::color::Color;
use crate::layout::Rect;
use crate::paint::{Paint, Pen, plain, plain_style, paint, paint_of};

verus! {

/// A horizontal segmented progress bar filled to `percent` in `color`.
pub struct EnergyCore {
    percent: u16,
    color: Color,
}

/// How many of `width` cells are filled at `percent` (held at 100):
/// `width * percent / 100`, rounded down.
pub open spec fn fill_of(width: int, percent: int) -> int {
    width * (if percent > 100 {
        100
    } else {
        percent
    }) / 100
}

/// The glyph and color of cell `x` of the bar: a white `✦` spark on
/// every fourth filled cell of a full bar, `▓` on the other filled
/// cells and `░` on the empty track, both in the bar's color.
pub open spec fn core_cell(percent: u16, color: Color, filled: int, x: int) -> (char, Color) {
    let is_filled = x < filled;
    if percent >= 100 && is_filled && x % 4 == 0 {
        ('✦', Color::White)
    } else if is_filled {
        ('▓', color)
    } else {
        ('░', color)
    }
}

/// The pen of a bar cell in `fg`: on the terminal background, plain,
/// see-through when layers are composited.
pub open spec fn core_pen(fg: Color) -> Pen {
    Pen { fg, bg: Color::Reset, style: plain_style(), opaque: false }
}

/// The writes that draw the bar along `area`'s top row: one per column;
/// nothing for an empty area.
pub open spec fn core_paints(percent: u16, color: Color, area: Rect) -> Seq<Paint> {
    if area.width == 0 || area.height == 0 {
        Seq::empty()
    } else {
        let filled = fill_of(area.width as int, percent as int);
        Seq::new(
            area.width as nat,
            |x: int|
                paint_of(
                    area.x + x,
                    area.y as int,
                    core_cell(percent, color, filled, x).0,
                    core_pen(core_cell(percent, color, filled, x).1),
                ),
        )
    }
}

impl EnergyCore {
    /// The fill level.
    pub closed spec fn level(&self) -> u16 {
        self.percent
    }

    /// The bar's color.
    pub closed spec fn bar_color(&self) -> Color {
        self.color
    }

    /// Creates a bar filled to `percent` (0-100) in `color`.
    pub fn new(percent: u16, color: Color) -> (r: Self)
        ensures
            r.level() == percent,
            r.bar_color() == color,
    {
        EnergyCore { percent, color }
    }

    /// How many of `width` cells are filled.
    pub fn filled_width(&self, width: u16) -> (r: u16)
        ensures
            r == fill_of(width as int, self.level() as int),
            r <= width,
    {
        let p: u32 = if self.percent > 100 {
            100
        } else {
            self.percent as u32
        };
        assert(width as u32 * p <= width as u32 * 100) by (nonlinear_arith)
            requires
                p <= 100,
        ;
        assert(width as u32 * p / 100 <= width as u32) by (nonlinear_arith)
            requires
                p <= 100,
        ;
        (width as u32 * p / 100) as u16
    }

    /// The writes that draw the bar along `area`'s top row: the filled
    /// cells (in the bar's color, sparks aside) for the caller to ramp
    /// toward white, then the empty track.
    pub fn paint(&self, area: Rect) -> (r: Vec<Paint>)
        requires
            area.width == 0 || area.height == 0 || area.x + area.width <= u16::MAX + 1,
        ensures
            r@ == core_paints(self.level(), self.bar_color(), area),
    {
        let mut out: Vec<Paint> = Vec::new();
        if area.width == 0 || area.height == 0 {
            return out;
        }
        let filled = self.filled_width(area.width);
        let mut x: u16 = 0;
        while x < area.width
            invariant
                area.x + area.width <= u16::MAX + 1,
                filled == fill_of(area.width as int, self.percent as int),
                x <= area.width,
                out@ == Seq::new(
                    x as nat,
                    |i: int|
                        paint_of(
                            area.x + i,
                            area.y as int,
                            core_cell(self.percent, self.color, filled as int, i).0,
                            core_pen(core_cell(self.percent, self.color, filled as int, i).1),
                        ),
                ),
            decreases area.width - x,
        {
            let is_filled = x < filled;
            let (symbol, fg) = if self.percent >= 100 && is_filled && x % 4 == 0 {
                ('✦', Color::White)
            } else if is_filled {
                ('▓', self.color)
            } else {
                ('░', self.color)
            };
            let pen = Pen { fg, bg: Color::Reset, style: plain(), opaque: false };
            out.push(paint(area.x + x, area.y, symbol, pen));
            x = x + 1;
            assert(out@ =~= Seq::new(
                x as nat,
                |i: int|
                    paint_of(
                        area.x + i,
                        area.y as int,
                        core_cell(self.percent, self.color, filled as int, i).0,
                        core_pen(core_cell(self.percent, self.color, filled as int, i).1),
                    ),
            ));
        }
        out
    }
}

} // verus!
