//! Percent readout whose color ramps white → yellow → red as it climbs
//! toward (and past) 100%. The ramp itself is a color interpolation the
//! caller supplies; this module lays out the text.
use vstd::prelude::*;
use crate::color::Color;
use crate::layout::Rect;
use crate::paint::{Paint, Pen, plain, plain_style, push_row, row_paints};
use crate::text::{decimal, push_decimal_chars};

verus! {

/// An "N%" text readout.
pub struct DamageMeter {
    percent: u16,
}

/// The readout's text: the percent in decimal, then `%`.
pub open spec fn meter_text(percent: u16) -> Seq<char> {
    decimal(percent as nat).push('%')
}

/// The pen of the readout in `color`: on the terminal background,
/// plain, and see-through when layers are composited.
pub open spec fn meter_pen(color: Color) -> Pen {
    Pen { fg: color, bg: Color::Reset, style: plain_style(), opaque: false }
}

impl DamageMeter {
    /// The percent shown.
    pub closed spec fn value(&self) -> u16 {
        self.percent
    }

    /// Creates a meter showing `percent` (uncapped — can exceed 100).
    pub fn new(percent: u16) -> (r: Self)
        ensures
            r.value() == percent,
    {
        DamageMeter { percent }
    }

    /// The percent shown.
    pub fn percent(&self) -> (r: u16)
        ensures
            r == self.value(),
    {
        self.percent
    }

    /// The writes that draw the percent text left-aligned along `area`'s
    /// top row in `color`, cut at its width; nothing for an empty area.
    pub fn paint(&self, area: Rect, color: Color) -> (r: Vec<Paint>)
        requires
            area.width == 0 || area.height == 0 || area.x + (if meter_text(self.value()).len()
                <= area.width {
                meter_text(self.value()).len() as int
            } else {
                area.width as int
            }) <= u16::MAX + 1,
        ensures
            r@ == (if area.width == 0 || area.height == 0 {
                Seq::empty()
            } else {
                row_paints(
                    area.x as int,
                    area.y as int,
                    meter_text(self.value()),
                    if meter_text(self.value()).len() <= area.width {
                        meter_text(self.value()).len() as int
                    } else {
                        area.width as int
                    },
                    meter_pen(color),
                )
            }),
    {
        let mut out: Vec<Paint> = Vec::new();
        if area.width == 0 || area.height == 0 {
            return out;
        }
        let mut text: Vec<char> = Vec::new();
        push_decimal_chars(&mut text, self.percent as u64);
        text.push('%');
        assert(text@ =~= meter_text(self.percent));
        let n: usize = if text.len() <= area.width as usize {
            text.len()
        } else {
            area.width as usize
        };
        let pen = Pen { fg: color, bg: Color::Reset, style: plain(), opaque: false };
        push_row(&mut out, area.x, area.y, &text, n, pen);
        out
    }
}

} // verus!
