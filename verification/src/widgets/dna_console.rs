//! Alternating two-color text row with a trailing cursor glyph, for a
//! console/typewriter feel.
use vstd::prelude::*;
use crate::color::Color;
use crate::layout::Rect;
use crate::paint::{Paint, Pen, plain, plain_style, paint, paint_of};
use crate::text::str_chars;

verus! {

/// A text row whose characters alternate between two colors, with a
/// trailing `▌` cursor.
pub struct DNAConsole<'a> {
    content: &'a str,
    primary: Color,
    secondary: Color,
}

/// The pen of a console cell in `color`.
pub open spec fn console_pen(color: Color) -> Pen {
    Pen { fg: color, bg: Color::Reset, style: plain_style(), opaque: true }
}

/// How many content characters are shown: all, up to one less than the
/// width (the last cell is kept for the cursor).
pub open spec fn shown_len(content: Seq<char>, width: int) -> int {
    let room = if width >= 1 {
        width - 1
    } else {
        0
    };
    if content.len() <= room {
        content.len() as int
    } else {
        room
    }
}

/// The writes that draw the console row: the shown characters from
/// `area`'s left edge, the even ones in `primary` and the odd ones in
/// `secondary`, then the cursor in `primary` right after them; nothing
/// for a zero-width area.
pub open spec fn console_paints(content: Seq<char>, primary: Color, secondary: Color, area: Rect) -> Seq<
    Paint,
> {
    if area.width == 0 {
        Seq::empty()
    } else {
        let n = shown_len(content, area.width as int);
        Seq::new(
            n as nat,
            |i: int|
                paint_of(
                    area.x + i,
                    area.y as int,
                    content[i],
                    console_pen(
                        if i % 2 == 0 {
                            primary
                        } else {
                            secondary
                        },
                    ),
                ),
        ).push(paint_of(area.x + n, area.y as int, '▌', console_pen(primary)))
    }
}

impl<'a> DNAConsole<'a> {
    /// The row's characters.
    pub closed spec fn content_chars(&self) -> Seq<char> {
        self.content@
    }

    /// The color of the even characters and the cursor.
    pub closed spec fn primary_color(&self) -> Color {
        self.primary
    }

    /// The color of the odd characters.
    pub closed spec fn secondary_color(&self) -> Color {
        self.secondary
    }

    /// Creates a console row over `content`, alternating `primary`/
    /// `secondary` per character.
    pub fn new(content: &'a str, primary: Color, secondary: Color) -> (r: Self)
        ensures
            r.content_chars() == content@,
            r.primary_color() == primary,
            r.secondary_color() == secondary,
    {
        DNAConsole { content, primary, secondary }
    }

    /// Whether `paint` can draw into `area`: every column it writes,
    /// the cursor's included, is within a `u16`.
    pub fn fits(&self, area: Rect) -> (r: bool)
        ensures
            r == (area.width == 0 || area.x + shown_len(self.content_chars(), area.width as int)
                <= u16::MAX),
    {
        if area.width == 0 {
            return true;
        }
        let len: usize = str_chars(self.content).len();
        let room: usize = (area.width - 1) as usize;
        let n: usize = if len <= room {
            len
        } else {
            room
        };
        area.x as usize + n <= 65535
    }

    /// The writes that draw the alternating-color text plus the trailing
    /// cursor along `area`'s top row.
    pub fn paint(&self, area: Rect) -> (r: Vec<Paint>)
        requires
            area.width == 0 || area.x + shown_len(self.content_chars(), area.width as int)
                <= u16::MAX,
        ensures
            r@ == console_paints(
                self.content_chars(),
                self.primary_color(),
                self.secondary_color(),
                area,
            ),
    {
        let mut out: Vec<Paint> = Vec::new();
        if area.width == 0 {
            return out;
        }
        let cs = str_chars(self.content);
        let room: usize = (area.width - 1) as usize;
        let n: usize = if cs.len() <= room {
            cs.len()
        } else {
            room
        };
        let ghost p = self.primary;
        let ghost q = self.secondary;
        let mut i: usize = 0;
        while i < n
            invariant
                area.x + n <= u16::MAX,
                n <= cs@.len(),
                n < area.width,
                cs@ == self.content@,
                p == self.primary,
                q == self.secondary,
                i <= n,
                out@ == Seq::new(
                    i as nat,
                    |k: int|
                        paint_of(
                            area.x + k,
                            area.y as int,
                            cs@[k],
                            console_pen(
                                if k % 2 == 0 {
                                    p
                                } else {
                                    q
                                },
                            ),
                        ),
                ),
            decreases n - i,
        {
            let color = if i % 2 == 0 {
                self.primary
            } else {
                self.secondary
            };
            let pen = Pen { fg: color, bg: Color::Reset, style: plain(), opaque: true };
            out.push(paint(area.x + (i as u16), area.y, cs[i], pen));
            i = i + 1;
            assert(out@ =~= Seq::new(
                i as nat,
                |k: int|
                    paint_of(
                        area.x + k,
                        area.y as int,
                        cs@[k],
                        console_pen(
                            if k % 2 == 0 {
                                p
                            } else {
                                q
                            },
                        ),
                    ),
            ));
        }
        let cursor = Pen { fg: self.primary, bg: Color::Reset, style: plain(), opaque: true };
        out.push(paint(area.x + (n as u16), area.y, '▌', cursor));
        out
    }
}

} // verus!
