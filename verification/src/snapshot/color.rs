//! Maps parsed terminal colors (the default, the 256-color palette, and
//! true color) to RGB pixel values, plus the small approximations of
//! bold and reverse video that rasterizing applies on top.
use vstd::prelude::*;

verus! {

/// A cell color as a terminal-screen parser reports it.
#[derive(Clone, Copy, Debug, PartialEq, Eq, Structural)]
pub enum ScreenColor {
    /// The terminal's default color.
    Default,
    /// An index into the 256-color palette.
    Idx(u8),
    /// A 24-bit color.
    Rgb(u8, u8, u8),
}

/// An RGB pixel value.
#[derive(Clone, Copy, Debug, PartialEq, Eq, Structural)]
pub struct Rgb {
    pub r: u8,
    pub g: u8,
    pub b: u8,
}

/// The pixel with channels `r`, `g`, `b`.
pub open spec fn rgb(r: int, g: int, b: int) -> Rgb {
    Rgb { r: r as u8, g: g as u8, b: b as u8 }
}

/// The sixteen standard ANSI colors, then their bright variants.
pub open spec fn basic16(i: int) -> Rgb {
    if i == 0 {
        rgb(0, 0, 0)
    } else if i == 1 {
        rgb(205, 0, 0)
    } else if i == 2 {
        rgb(0, 205, 0)
    } else if i == 3 {
        rgb(205, 205, 0)
    } else if i == 4 {
        rgb(0, 0, 238)
    } else if i == 5 {
        rgb(205, 0, 205)
    } else if i == 6 {
        rgb(0, 205, 205)
    } else if i == 7 {
        rgb(229, 229, 229)
    } else if i == 8 {
        rgb(127, 127, 127)
    } else if i == 9 {
        rgb(255, 0, 0)
    } else if i == 10 {
        rgb(0, 255, 0)
    } else if i == 11 {
        rgb(255, 255, 0)
    } else if i == 12 {
        rgb(92, 92, 255)
    } else if i == 13 {
        rgb(255, 0, 255)
    } else if i == 14 {
        rgb(0, 255, 255)
    } else {
        rgb(255, 255, 255)
    }
}

/// One axis of the 6x6x6 color cube: level 0 is dark, each further
/// level 40 brighter starting from 95.
pub open spec fn cube_level(v: int) -> int {
    if v == 0 {
        0
    } else {
        55 + v * 40
    }
}

/// The xterm 256-color palette: the sixteen basic colors, the color
/// cube (index `16 + 36r + 6g + b`), then a 24-step gray ramp from 8.
pub open spec fn palette(idx: u8) -> Rgb {
    if idx < 16 {
        basic16(idx as int)
    } else if idx < 232 {
        let i = idx - 16;
        rgb(cube_level(i / 36), cube_level((i % 36) / 6), cube_level(i % 6))
    } else {
        let v = 8 + (idx - 232) * 10;
        rgb(v, v, v)
    }
}

/// The default foreground: light gray.
pub open spec fn default_fg() -> Rgb {
    rgb(229, 229, 229)
}

/// A parsed color's pixel value, the default taken as a foreground.
pub open spec fn color_rgb(c: ScreenColor) -> Rgb {
    match c {
        ScreenColor::Default => default_fg(),
        ScreenColor::Idx(i) => palette(i),
        ScreenColor::Rgb(r, g, b) => Rgb { r, g, b },
    }
}

/// A parsed color's pixel value as a background: the default is black.
pub open spec fn background_rgb(c: ScreenColor) -> Rgb {
    match c {
        ScreenColor::Default => rgb(0, 0, 0),
        _ => color_rgb(c),
    }
}

/// `v + 40`, held at 255.
pub open spec fn lighten(v: u8) -> u8 {
    if v + 40 > 255 {
        255
    } else {
        (v + 40) as u8
    }
}

/// Each channel 40 lighter, held at 255.
pub open spec fn brightened(c: Rgb) -> Rgb {
    Rgb { r: lighten(c.r), g: lighten(c.g), b: lighten(c.b) }
}

/// Law: the eight standard ANSI colors light their channels by the bits
/// of their index — bit 0 red, bit 1 green, bit 2 blue (so 3 is yellow,
/// 5 magenta, 6 cyan) — and so do the bright colors 9 to 15 by the bits
/// of their index less 8; bright black (8) is the gray between them, and
/// bright blue (12) is lifted toward white on red and green.
pub proof fn lemma_basic_colors_follow_index_bits(i: u8)
    requires
        i < 16,
        i != 8,
        i != 12,
    ensures
        (color_rgb(ScreenColor::Idx(i)).r > 0) == ((i % 8) % 2 == 1),
        (color_rgb(ScreenColor::Idx(i)).g > 0) == (((i % 8) / 2) % 2 == 1),
        (color_rgb(ScreenColor::Idx(i)).b > 0) == ((i % 8) / 4 == 1),
{
}

/// Law: each channel a basic color lights is lit to one level: the same
/// level on every lit channel, 205 for the normal colors, 255 for the
/// bright ones, with white (7) at 229 — the standard xterm levels (blue
/// aside, which xterm lifts to 238 and, bright, starts red and green
/// at 92).
pub proof fn lemma_basic_color_levels(i: u8)
    requires
        1 <= i < 16,
        i != 4,
        i != 7,
        i != 8,
        i != 12,
    ensures
        ({
            let c = color_rgb(ScreenColor::Idx(i));
            let level = if i < 8 {
                205u8
            } else {
                255u8
            };
            &&& (c.r == 0 || c.r == level)
            &&& (c.g == 0 || c.g == level)
            &&& (c.b == 0 || c.b == level)
        }),
        color_rgb(ScreenColor::Idx(7)) == rgb(229, 229, 229),
        color_rgb(ScreenColor::Idx(4)) == rgb(0, 0, 238),
        color_rgb(ScreenColor::Idx(8)) == rgb(127, 127, 127),
        color_rgb(ScreenColor::Idx(12)) == rgb(92, 92, 255),
{
}

fn basic16_exec(i: u8) -> (r: Rgb)
    requires
        i < 16,
    ensures
        r == basic16(i as int),
{
    match i {
        0 => Rgb { r: 0, g: 0, b: 0 },
        1 => Rgb { r: 205, g: 0, b: 0 },
        2 => Rgb { r: 0, g: 205, b: 0 },
        3 => Rgb { r: 205, g: 205, b: 0 },
        4 => Rgb { r: 0, g: 0, b: 238 },
        5 => Rgb { r: 205, g: 0, b: 205 },
        6 => Rgb { r: 0, g: 205, b: 205 },
        7 => Rgb { r: 229, g: 229, b: 229 },
        8 => Rgb { r: 127, g: 127, b: 127 },
        9 => Rgb { r: 255, g: 0, b: 0 },
        10 => Rgb { r: 0, g: 255, b: 0 },
        11 => Rgb { r: 255, g: 255, b: 0 },
        12 => Rgb { r: 92, g: 92, b: 255 },
        13 => Rgb { r: 255, g: 0, b: 255 },
        14 => Rgb { r: 0, g: 255, b: 255 },
        _ => Rgb { r: 255, g: 255, b: 255 },
    }
}

fn cube_level_exec(v: u8) -> (r: u8)
    requires
        v <= 5,
    ensures
        r == cube_level(v as int),
{
    if v == 0 {
        0
    } else {
        55 + v * 40
    }
}

/// The pixel value of entry `idx` of the 256-color palette.
pub fn ansi256_to_rgb(idx: u8) -> (r: Rgb)
    ensures
        r == palette(idx),
{
    if idx < 16 {
        basic16_exec(idx)
    } else if idx < 232 {
        let i = idx - 16;
        let r = cube_level_exec(i / 36);
        let g = cube_level_exec((i % 36) / 6);
        let b = cube_level_exec(i % 6);
        Rgb { r, g, b }
    } else {
        let v = 8 + (idx - 232) * 10;
        Rgb { r: v, g: v, b: v }
    }
}

/// Maps a parsed color to a pixel value; the default maps to the
/// default foreground, light gray.
pub fn to_rgb(c: ScreenColor) -> (r: Rgb)
    ensures
        r == color_rgb(c),
{
    match c {
        ScreenColor::Default => Rgb { r: 229, g: 229, b: 229 },
        ScreenColor::Idx(i) => ansi256_to_rgb(i),
        ScreenColor::Rgb(r, g, b) => Rgb { r, g, b },
    }
}

/// Maps a parsed background color to a pixel value: as `to_rgb`, except
/// that the default background is black.
pub fn bg_to_rgb(c: ScreenColor) -> (r: Rgb)
    ensures
        r == background_rgb(c),
{
    match c {
        ScreenColor::Default => Rgb { r: 0, g: 0, b: 0 },
        _ => to_rgb(c),
    }
}

/// Approximates bold by lightening each channel by 40, held at white.
pub fn brighten(c: Rgb) -> (r: Rgb)
    ensures
        r == brightened(c),
{
    Rgb { r: c.r.saturating_add(40), g: c.g.saturating_add(40), b: c.b.saturating_add(40) }
}

/// Approximates reverse video by exchanging foreground and background.
pub fn swap(fg: Rgb, bg: Rgb) -> (r: (Rgb, Rgb))
    ensures
        r == (bg, fg),
{
    (bg, fg)
}

} // verus!
