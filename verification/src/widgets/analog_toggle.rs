//! Two-position analog toggle switch, rendered as a bracketed slash.
use vstd::prelude::*;
use crate::color::Color;
use crate::layout::Rect;
use crate::paint::{Paint, Pen, plain, plain_style, push_row, row_paints};

verus! {

/// A two-position switch, on (`[ / ]`) or off (`[ \ ]`).
pub struct AnalogToggle {
    on: bool,
}

/// The switch's glyphs: a slash when on, a backslash when off.
pub open spec fn toggle_text(on: bool) -> Seq<char> {
    if on {
        seq!['[', ' ', '/', ' ', ']']
    } else {
        seq!['[', ' ', '\\', ' ', ']']
    }
}

/// The pen the switch is drawn with: terminal colors, plain, opaque.
pub open spec fn toggle_pen() -> Pen {
    Pen { fg: Color::Reset, bg: Color::Reset, style: plain_style(), opaque: true }
}

impl AnalogToggle {
    /// Whether the switch is on.
    pub closed spec fn is_on(&self) -> bool {
        self.on
    }

    /// Creates a toggle in the given state.
    pub fn new(on: bool) -> (r: Self)
        ensures
            r.is_on() == on,
    {
        AnalogToggle { on }
    }

    /// The writes that draw the switch from `area`'s top-left, along its
    /// top row, cut at `area`'s width.
    pub fn paint(&self, area: Rect) -> (r: Vec<Paint>)
        requires
            area.x + (if area.width < 5 {
                area.width as int
            } else {
                5
            }) <= u16::MAX + 1,
        ensures
            r@ == row_paints(
                area.x as int,
                area.y as int,
                toggle_text(self.is_on()),
                if area.width < 5 {
                    area.width as int
                } else {
                    5
                },
                toggle_pen(),
            ),
    {
        let text: Vec<char> = if self.on {
            vec!['[', ' ', '/', ' ', ']']
        } else {
            vec!['[', ' ', '\\', ' ', ']']
        };
        assert(text@ =~= toggle_text(self.on));
        let n: usize = if (area.width as usize) < 5 {
            area.width as usize
        } else {
            5
        };
        let pen = Pen { fg: Color::Reset, bg: Color::Reset, style: plain(), opaque: true };
        let mut out: Vec<Paint> = Vec::new();
        push_row(&mut out, area.x, area.y, &text, n, pen);
        assert(out@ =~= row_paints(area.x as int, area.y as int, text@, n as int, pen));
        out
    }
}

} // verus!
