//! A one-glyph cursor that jitters sideways while it moves. Rounding
//! its fractional position to a cell is the caller's; this module
//! decides the jitter and the clipping.
use vstd::prelude::*;
use crate::color::Color;
use crate::paint::{Paint, Pen, plain, plain_style, paint, paint_of};

verus! {

/// A cursor glyph.
pub struct ScuttleCursor {
    symbol: char,
}

/// The sideways jitter: none at rest; while moving, one cell left on
/// even ticks and one right on odd ones.
pub open spec fn jerk(moving: bool, tick_count: u64) -> int {
    if !moving {
        0
    } else if tick_count % 2 == 0 {
        -1
    } else {
        1
    }
}

/// The cursor's pen: terminal colors, plain, see-through when layers
/// are composited.
pub open spec fn cursor_pen() -> Pen {
    Pen { fg: Color::Reset, bg: Color::Reset, style: plain_style(), opaque: false }
}

/// Where the cursor lands for the cell (`x`, `y`) in a `width` x
/// `height` buffer: its jittered column, when that and `y` are not
/// negative and their low 16 bits fall inside the buffer.
pub open spec fn cursor_paint(
    symbol: char,
    x: int,
    y: int,
    moving: bool,
    tick_count: u64,
    width: u16,
    height: u16,
) -> Option<Paint> {
    let px = x + jerk(moving, tick_count);
    if px >= 0 && y >= 0 && (px as u16) < width && (y as u16) < height {
        Some(paint_of((px as u16) as int, (y as u16) as int, symbol, cursor_pen()))
    } else {
        None
    }
}

impl ScuttleCursor {
    /// The cursor's glyph.
    pub closed spec fn glyph(&self) -> char {
        self.symbol
    }

    /// Creates a cursor drawn as `symbol`.
    pub fn new(symbol: char) -> (r: Self)
        ensures
            r.glyph() == symbol,
    {
        ScuttleCursor { symbol }
    }

    /// The write that draws the cursor at the cell (`x`, `y`) of a
    /// `width` x `height` buffer, jittered sideways while `moving`;
    /// `None` when it lands off the buffer.
    pub fn paint(&self, x: i32, y: i32, moving: bool, tick_count: u64, width: u16, height: u16) -> (r:
        Option<Paint>)
        requires
            i32::MIN <= x + jerk(moving, tick_count) <= i32::MAX,
        ensures
            r == cursor_paint(self.glyph(), x as int, y as int, moving, tick_count, width, height),
    {
        let j: i32 = if moving {
            if tick_count % 2 == 0 {
                -1
            } else {
                1
            }
        } else {
            0
        };
        let px = x + j;
        let py = y;
        if px >= 0 && py >= 0 && (px as u16) < width && (py as u16) < height {
            let pen = Pen { fg: Color::Reset, bg: Color::Reset, style: plain(), opaque: false };
            Some(paint(px as u16, py as u16, self.symbol, pen))
        } else {
            None
        }
    }
}

} // verus!
