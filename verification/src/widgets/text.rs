//! Single-line plain text, left-aligned and truncated to fit.
use vstd::prelude::*;
use crate::color::Color;
use crate::layout::Rect;
use crate::paint::{Paint, Pen, plain, plain_style, push_row, row_paints};
use crate::text::str_chars;

verus! {

/// A single line of text with default (terminal) foreground color.
pub struct Text<'a> {
    content: &'a str,
    fg: Color,
    bg: Color,
}

/// The smaller of `a` and `b`.
pub open spec fn min_len(a: int, b: int) -> int {
    if a <= b {
        a
    } else {
        b
    }
}

impl<'a> Text<'a> {
    /// The characters shown.
    pub closed spec fn content_chars(&self) -> Seq<char> {
        self.content@
    }

    /// The pen the text is drawn with.
    pub closed spec fn pen(&self) -> Pen {
        Pen { fg: self.fg, bg: self.bg, style: plain_style(), opaque: true }
    }

    /// Creates a text row over `content` with default styling.
    pub fn new(content: &'a str) -> (r: Self)
        ensures
            r.content_chars() == content@,
            r.pen() == (Pen { fg: Color::Reset, bg: Color::Reset, style: plain_style(), opaque: true }),
    {
        Text { content, fg: Color::Reset, bg: Color::Reset }
    }

    /// Overrides the background color (default: `Color::Reset`).
    pub fn bg(self, color: Color) -> (r: Self)
        ensures
            r.content_chars() == self.content_chars(),
            r.pen() == (Pen { bg: color, ..self.pen() }),
    {
        Text { content: self.content, fg: self.fg, bg: color }
    }

    /// Whether `paint` can draw into `area`: every column it writes is
    /// within a `u16`.
    pub fn fits(&self, area: Rect) -> (r: bool)
        ensures
            r == (area.width == 0 || area.height == 0 || area.x + min_len(
                self.content_chars().len() as int,
                area.width as int,
            ) <= u16::MAX + 1),
    {
        if area.width == 0 || area.height == 0 {
            return true;
        }
        let n: usize = str_chars(self.content).len();
        let m: usize = if n <= area.width as usize {
            n
        } else {
            area.width as usize
        };
        area.x as usize + m <= 65536
    }

    /// The writes that draw the text left-aligned along `area`'s top
    /// row, truncated to its width; nothing for an empty area.
    pub fn paint(&self, area: Rect) -> (r: Vec<Paint>)
        requires
            area.width == 0 || area.height == 0 || area.x + min_len(
                self.content_chars().len() as int,
                area.width as int,
            ) <= u16::MAX + 1,
        ensures
            r@ == (if area.width == 0 || area.height == 0 {
                Seq::empty()
            } else {
                row_paints(
                    area.x as int,
                    area.y as int,
                    self.content_chars(),
                    min_len(self.content_chars().len() as int, area.width as int),
                    self.pen(),
                )
            }),
    {
        let mut out: Vec<Paint> = Vec::new();
        if area.width == 0 || area.height == 0 {
            return out;
        }
        let cs = str_chars(self.content);
        let n: usize = if cs.len() <= area.width as usize {
            cs.len()
        } else {
            area.width as usize
        };
        let pen = Pen { fg: self.fg, bg: self.bg, style: plain(), opaque: true };
        push_row(&mut out, area.x, area.y, &cs, n, pen);
        assert(out@ =~= row_paints(area.x as int, area.y as int, cs@, n as int, pen));
        out
    }
}

} // verus!
