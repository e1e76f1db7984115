//! Bordered container, with an optional outward second border ring
//! for a "glow" look when `Theme.border_thick` is set.
//!
//! `Block` draws chrome and hands back the space inside it; it is not a
//! combinator that takes a child widget. Its writes come with the inner
//! `Rect`, and the caller renders into that, which keeps `Block` the
//! same stateless `(data, area) -> cell writes` shape as every other
//! widget.
use vstd::prelude::*;
use crate::color::Color;
use crate::layout::Rect;
use crate::paint::{
    Paint, Pen, RingGlyphs, plain, plain_style, plain_edge, plain_edge_of, push_ring, ring,
    paint, paint_of, in_u16_range, shown, ring_cell, lemma_shown_concat, lemma_ring_shows,
};
use crate::text::str_chars;
use crate::theme::{BorderSet, Theme};

verus! {

/// A bordered box with an optional title, drawn with a `Theme` or
/// plain default styling.
pub struct Block<'a> {
    title: Option<&'a str>,
    theme: Option<&'a Theme>,
}

/// The ring glyphs of a border set.
pub open spec fn border_ring(b: BorderSet) -> RingGlyphs {
    RingGlyphs {
        horizontal: plain_edge_of(b.horizontal),
        vertical: plain_edge_of(b.vertical),
        top_left: b.top_left,
        top_right: b.top_right,
        bottom_left: b.bottom_left,
        bottom_right: b.bottom_right,
    }
}

/// The theme a block draws with when it has none: the single-line
/// border in reset colors and the plain style, one ring.
pub open spec fn untheme() -> Theme {
    Theme {
        background: Color::Reset,
        primary: Color::Reset,
        secondary: Color::Reset,
        tertiary: Color::Reset,
        accent: Color::Reset,
        primary_end: None,
        border: BorderSet {
            horizontal: '─',
            vertical: '│',
            top_left: '┌',
            top_right: '┐',
            bottom_left: '└',
            bottom_right: '┘',
        },
        border_style: plain_style(),
        border_thick: false,
    }
}

/// The pen of a border cell: the theme's primary on its background, in
/// its border style.
pub open spec fn border_pen(t: Theme) -> Pen {
    Pen { fg: t.primary, bg: t.background, style: t.border_style, opaque: true }
}

/// The pen of a title cell: as the border's, but always plain.
pub open spec fn title_pen(t: Theme) -> Pen {
    Pen { fg: t.primary, bg: t.background, style: plain_style(), opaque: true }
}

/// `a - b`, held at 0.
pub open spec fn sat_sub(a: int, b: int) -> int {
    if a >= b {
        a - b
    } else {
        0
    }
}

/// The smaller of `a` and `b`.
pub open spec fn min_int(a: int, b: int) -> int {
    if a <= b {
        a
    } else {
        b
    }
}

/// The outward ring's rect: `area` grown by one cell on every side,
/// clipped at the buffer's top and left edges (coordinate 0) and at its
/// right and bottom edges.
pub open spec fn glow_rect(area: Rect, buf_width: int, buf_height: int) -> Rect {
    let ox = sat_sub(area.x as int, 1);
    let oy = sat_sub(area.y as int, 1);
    Rect {
        x: ox as u16,
        y: oy as u16,
        width: min_int(area.width + 2, sat_sub(buf_width, ox)) as u16,
        height: min_int(area.height + 2, sat_sub(buf_height, oy)) as u16,
    }
}

/// Whether the outward ring is drawn: the theme asks for it and, once
/// clipped, it still spans at least 2x2 cells.
pub open spec fn glow_drawn(t: Theme, area: Rect, buf_width: int, buf_height: int) -> bool {
    let g = glow_rect(area, buf_width, buf_height);
    t.border_thick && g.width >= 2 && g.height >= 2
}

/// How many title characters fit on the top border: all of them, up to
/// the border's width less its two corners.
pub open spec fn title_len(area: Rect, title: Seq<char>) -> int {
    min_int(title.len() as int, sat_sub(area.width as int, 2))
}

/// The writes of the title along the top border, starting one cell in
/// from the left corner.
pub open spec fn title_paints(area: Rect, title: Seq<char>, pen: Pen) -> Seq<Paint> {
    Seq::new(
        title_len(area, title) as nat,
        |i: int| paint_of(area.x + 1 + i, area.y as int, title[i], pen),
    )
}

/// The writes that draw a block: nothing for an area under 2x2; else
/// the ring around `area`, then the outward ring when drawn, then the
/// title.
pub open spec fn block_paints(
    t: Theme,
    title: Option<Seq<char>>,
    area: Rect,
    buf_width: int,
    buf_height: int,
) -> Seq<Paint> {
    if area.width < 2 || area.height < 2 {
        Seq::empty()
    } else {
        let glow = if glow_drawn(t, area, buf_width, buf_height) {
            ring(glow_rect(area, buf_width, buf_height), border_ring(t.border), border_pen(t))
        } else {
            Seq::empty()
        };
        let titled = match title {
            Some(s) => title_paints(area, s, title_pen(t)),
            None => Seq::empty(),
        };
        ring(area, border_ring(t.border), border_pen(t)) + glow + titled
    }
}

/// The content area inside a block: `area` inset by one cell on every
/// side (the outward ring does not shrink it); `area` itself when it is
/// under 2x2.
pub open spec fn block_inner(area: Rect) -> Rect {
    if area.width < 2 || area.height < 2 {
        area
    } else {
        Rect {
            x: (area.x + 1) as u16,
            y: (area.y + 1) as u16,
            width: (area.width - 2) as u16,
            height: (area.height - 2) as u16,
        }
    }
}

proof fn lemma_title_shown(area: Rect, title: Seq<char>, pen: Pen, n: int, x: int, y: int)
    requires
        in_u16_range(area),
        0 <= n <= title_len(area, title),
        0 <= x <= u16::MAX,
        0 <= y <= u16::MAX,
    ensures
        shown(
            Seq::new(n as nat, |i: int| paint_of(area.x + 1 + i, area.y as int, title[i], pen)),
            x,
            y,
        ) == (if y == area.y && area.x + 1 <= x < area.x + 1 + n {
            Some(paint_of(x, y, title[x - area.x - 1], pen))
        } else {
            None
        }),
    decreases n,
{
    let s = Seq::new(n as nat, |i: int| paint_of(area.x + 1 + i, area.y as int, title[i], pen));
    if n > 0 {
        let s1 = Seq::new(
            (n - 1) as nat,
            |i: int| paint_of(area.x + 1 + i, area.y as int, title[i], pen),
        );
        assert(s.drop_last() =~= s1);
        lemma_title_shown(area, title, pen, n - 1, x, y);
    }
}

/// What title cell (`x`, `y`) shows: the title character there, in the
/// title pen, for the cells the title covers; `None` elsewhere.
pub open spec fn title_cell(t: Theme, title: Option<Seq<char>>, area: Rect, x: int, y: int) -> Option<
    Paint,
> {
    match title {
        Some(s) => if y == area.y && area.x + 1 <= x < area.x + 1 + title_len(area, s) {
            Some(paint_of(x, y, s[x - area.x - 1], title_pen(t)))
        } else {
            None
        },
        None => None,
    }
}

/// Law: a drawn block (at least 2x2) shows its title's characters, in
/// the plain style, on the top border from one cell right of the
/// corner; elsewhere the outward ring where it is drawn and covers the
/// cell; elsewhere the ring around `area` — corners, edges, and nothing
/// inside.
pub proof fn lemma_block_shows(
    t: Theme,
    title: Option<Seq<char>>,
    area: Rect,
    buf_width: int,
    buf_height: int,
    x: int,
    y: int,
)
    requires
        in_u16_range(area),
        area.width >= 2,
        area.height >= 2,
        0 <= buf_width <= u16::MAX,
        0 <= buf_height <= u16::MAX,
        0 <= x <= u16::MAX,
        0 <= y <= u16::MAX,
    ensures
        shown(block_paints(t, title, area, buf_width, buf_height), x, y) == (if title_cell(
            t,
            title,
            area,
            x,
            y,
        ) is Some {
            title_cell(t, title, area, x, y)
        } else if glow_drawn(t, area, buf_width, buf_height) && ring_cell(
            glow_rect(area, buf_width, buf_height),
            border_ring(t.border),
            border_pen(t),
            x,
            y,
        ) is Some {
            ring_cell(glow_rect(area, buf_width, buf_height), border_ring(t.border), border_pen(t), x, y)
        } else {
            ring_cell(area, border_ring(t.border), border_pen(t), x, y)
        }),
{
    let r = ring(area, border_ring(t.border), border_pen(t));
    let g = glow_rect(area, buf_width, buf_height);
    let glow = if glow_drawn(t, area, buf_width, buf_height) {
        ring(g, border_ring(t.border), border_pen(t))
    } else {
        Seq::empty()
    };
    let titled = match title {
        Some(s) => title_paints(area, s, title_pen(t)),
        None => Seq::empty(),
    };
    lemma_shown_concat(r + glow, titled, x, y);
    lemma_shown_concat(r, glow, x, y);
    lemma_ring_shows(area, border_ring(t.border), border_pen(t), x, y);
    if glow_drawn(t, area, buf_width, buf_height) {
        assert(in_u16_range(g));
        lemma_ring_shows(g, border_ring(t.border), border_pen(t), x, y);
    }
    match title {
        Some(s) => {
            lemma_title_shown(area, s, title_pen(t), title_len(area, s), x, y);
        },
        None => {},
    }
}

fn sat_sub_u16(a: u16, b: u16) -> (r: u16)
    ensures
        r == sat_sub(a as int, b as int),
{
    a.saturating_sub(b)
}

impl<'a> Block<'a> {
    /// The title's characters, if one is set.
    pub closed spec fn title_chars(&self) -> Option<Seq<char>> {
        match self.title {
            Some(t) => Some(t@),
            None => None,
        }
    }

    /// The theme the block draws with: its own, or the plain default.
    pub closed spec fn drawn_theme(&self) -> Theme {
        match self.theme {
            Some(t) => *t,
            None => untheme(),
        }
    }

    /// Whether a theme is set.
    pub closed spec fn has_theme(&self) -> bool {
        self.theme is Some
    }

    /// Creates an untitled, unthemed block.
    pub fn new() -> (r: Self)
        ensures
            r.title_chars() is None,
            !r.has_theme(),
            r.drawn_theme() == untheme(),
    {
        Block { title: None, theme: None }
    }

    /// Sets the title shown on the top border.
    pub fn title(self, t: &'a str) -> (r: Self)
        ensures
            r.title_chars() == Some(t@),
            r.has_theme() == self.has_theme(),
            r.drawn_theme() == self.drawn_theme(),
    {
        Block { title: Some(t), theme: self.theme }
    }

    /// Sets the theme controlling border glyphs, color and thickness.
    pub fn theme(self, theme: &'a Theme) -> (r: Self)
        ensures
            r.title_chars() == self.title_chars(),
            r.has_theme(),
            r.drawn_theme() == *theme,
    {
        Block { title: self.title, theme: Some(theme) }
    }

    /// The theme's gradient end color, when a theme sets one.
    pub fn gradient_end(&self) -> (r: Option<Color>)
        ensures
            r == self.drawn_theme().primary_end,
    {
        match self.theme {
            Some(t) => t.primary_end,
            None => None,
        }
    }

    /// The writes that draw the border (and title, if set) into `area`
    /// of a `buf_width` x `buf_height` buffer, and the inner content
    /// area for the caller to render into: `area` inset by one cell on
    /// every side. A thick border draws its second ring outward, so it
    /// does not shrink the inner area. Every write's foreground is the
    /// theme's primary; a theme's gradient is the caller's to apply.
    pub fn paint(&self, area: Rect, buf_width: u16, buf_height: u16) -> (r: (Vec<Paint>, Rect))
        requires
            area.width >= 2 && area.height >= 2 ==> in_u16_range(area),
        ensures
            r.0@ == block_paints(
                self.drawn_theme(),
                self.title_chars(),
                area,
                buf_width as int,
                buf_height as int,
            ),
            r.1 == block_inner(area),
    {
        let mut out: Vec<Paint> = Vec::new();
        if area.width < 2 || area.height < 2 {
            return (out, area);
        }
        let t: Theme = match self.theme {
            Some(t) => *t,
            None => Theme {
                background: Color::Reset,
                primary: Color::Reset,
                secondary: Color::Reset,
                tertiary: Color::Reset,
                accent: Color::Reset,
                primary_end: None,
                border: BorderSet::default(),
                border_style: plain(),
                border_thick: false,
            },
        };
        assert(t == self.drawn_theme());
        let glyphs = RingGlyphs {
            horizontal: plain_edge(t.border.horizontal),
            vertical: plain_edge(t.border.vertical),
            top_left: t.border.top_left,
            top_right: t.border.top_right,
            bottom_left: t.border.bottom_left,
            bottom_right: t.border.bottom_right,
        };
        let pen = Pen { fg: t.primary, bg: t.background, style: t.border_style, opaque: true };
        push_ring(&mut out, area, glyphs, pen);
        let ghost after_ring = out@;
        if t.border_thick {
            let ox = sat_sub_u16(area.x, 1);
            let oy = sat_sub_u16(area.y, 1);
            let room_w = sat_sub_u16(buf_width, ox);
            let room_h = sat_sub_u16(buf_height, oy);
            let grown_w: u32 = area.width as u32 + 2;
            let grown_h: u32 = area.height as u32 + 2;
            let ow: u16 = if grown_w <= room_w as u32 {
                grown_w as u16
            } else {
                room_w
            };
            let oh: u16 = if grown_h <= room_h as u32 {
                grown_h as u16
            } else {
                room_h
            };
            if ow >= 2 && oh >= 2 {
                let outer = Rect { x: ox, y: oy, width: ow, height: oh };
                assert(outer == glow_rect(area, buf_width as int, buf_height as int));
                push_ring(&mut out, outer, glyphs, pen);
            }
        }
        let ghost after_glow = out@;
        let ghost glow = after_glow.subrange(after_ring.len() as int, after_glow.len() as int);
        assert(after_glow =~= after_ring + glow);
        assert(glow =~= (if glow_drawn(t, area, buf_width as int, buf_height as int) {
            ring(glow_rect(area, buf_width as int, buf_height as int), border_ring(t.border), pen)
        } else {
            Seq::empty()
        }));
        if let Some(title) = self.title {
            let cs = str_chars(title);
            let limit: u16 = area.width - 2;
            let tpen = Pen { fg: t.primary, bg: t.background, style: plain(), opaque: true };
            let mut i: usize = 0;
            while i < cs.len() && i < limit as usize
                invariant
                    in_u16_range(area),
                    area.width >= 2,
                    limit == area.width - 2,
                    cs@ == title@,
                    i <= cs@.len(),
                    i <= limit,
                    tpen == title_pen(t),
                    out@ == after_glow + Seq::new(
                        i as nat,
                        |k: int| paint_of(area.x + 1 + k, area.y as int, title@[k], tpen),
                    ),
                decreases cs.len() - i,
            {
                out.push(paint(area.x + 1 + (i as u16), area.y, cs[i], tpen));
                i = i + 1;
                assert(out@ =~= after_glow + Seq::new(
                    i as nat,
                    |k: int| paint_of(area.x + 1 + k, area.y as int, title@[k], tpen),
                ));
            }
            assert(Seq::new(
                i as nat,
                |k: int| paint_of(area.x + 1 + k, area.y as int, title@[k], tpen),
            ) =~= title_paints(area, title@, tpen));
        } else {
            assert(out@ =~= after_glow + Seq::<Paint>::empty());
        }
        (out, Rect { x: area.x + 1, y: area.y + 1, width: area.width - 2, height: area.height - 2 })
    }
}

impl<'a> Default for Block<'a> {
    fn default() -> (r: Self)
        ensures
            r.title_chars() is None,
            !r.has_theme(),
    {
        Self::new()
    }
}

} // verus!
