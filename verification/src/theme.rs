//! App color palette and border glyph set — passed explicitly to the
//! bordered widgets; other widgets take plain color parameters instead
//! of a whole `Theme`.
use vstd::prelude::*;
use crate::buffer::{CellStyle, Intensity};
use crate::color::Color;

verus! {

/// The glyphs a bordered widget draws its edges/corners with.
#[derive(Clone, Copy, Debug, PartialEq, Eq, Structural)]
pub struct BorderSet {
    /// Top/bottom edge glyph.
    pub horizontal: char,
    /// Left/right edge glyph.
    pub vertical: char,
    /// Top-left corner glyph.
    pub top_left: char,
    /// Top-right corner glyph.
    pub top_right: char,
    /// Bottom-left corner glyph.
    pub bottom_left: char,
    /// Bottom-right corner glyph.
    pub bottom_right: char,
}

impl BorderSet {
    /// Real box-drawing glyphs (`┌┐└┘─│`) — the default border look.
    pub fn single_line() -> (r: Self)
        ensures
            r == (BorderSet {
                horizontal: '─',
                vertical: '│',
                top_left: '┌',
                top_right: '┐',
                bottom_left: '└',
                bottom_right: '┘',
            }),
    {
        BorderSet {
            horizontal: '─',
            vertical: '│',
            top_left: '┌',
            top_right: '┐',
            bottom_left: '└',
            bottom_right: '┘',
        }
    }

    /// Plain ASCII (`-|+`), the same `+` at every corner.
    pub fn ascii() -> (r: Self)
        ensures
            r == (BorderSet {
                horizontal: '-',
                vertical: '|',
                top_left: '+',
                top_right: '+',
                bottom_left: '+',
                bottom_right: '+',
            }),
    {
        BorderSet {
            horizontal: '-',
            vertical: '|',
            top_left: '+',
            top_right: '+',
            bottom_left: '+',
            bottom_right: '+',
        }
    }
}

impl Default for BorderSet {
    /// The single-line set.
    fn default() -> (r: Self)
        ensures
            r == (BorderSet {
                horizontal: '─',
                vertical: '│',
                top_left: '┌',
                top_right: '┐',
                bottom_left: '└',
                bottom_right: '┘',
            }),
    {
        Self::single_line()
    }
}

/// An app's color palette and border style, passed to the bordered
/// widgets' renders.
#[derive(Clone, Copy, Debug, PartialEq, Eq, Structural)]
pub struct Theme {
    /// Base background color.
    pub background: Color,
    /// Main accent/brand color.
    pub primary: Color,
    /// Secondary accent color.
    pub secondary: Color,
    /// Tertiary accent color.
    pub tertiary: Color,
    /// Highlight/selection color.
    pub accent: Color,
    /// When set, a `Block`'s border ramps from `primary` toward this
    /// color along a top-left-to-bottom-right diagonal across the
    /// border's bounding box, holding this color past the diagonal.
    pub primary_end: Option<Color>,
    /// Border glyph set.
    pub border: BorderSet,
    /// Style applied to every border cell (not to title cells).
    pub border_style: CellStyle,
    /// Whether a `Block` draws an outward second border ring.
    pub border_thick: bool,
}

impl Default for Theme {
    /// Reset colors everywhere, no gradient, the single-line border set
    /// in the plain style, one ring.
    fn default() -> (r: Self)
        ensures
            r == (Theme {
                background: Color::Reset,
                primary: Color::Reset,
                secondary: Color::Reset,
                tertiary: Color::Reset,
                accent: Color::Reset,
                primary_end: None,
                border: BorderSet {
                    horizontal: '─',
                    vertical: '│',
                    top_left: '┌',
                    top_right: '┐',
                    bottom_left: '└',
                    bottom_right: '┘',
                },
                border_style: CellStyle {
                    intensity: Intensity::Normal,
                    underline: false,
                    italic: false,
                    reverse: false,
                    strikethrough: false,
                },
                border_thick: false,
            }),
    {
        Theme {
            background: Color::Reset,
            primary: Color::Reset,
            secondary: Color::Reset,
            tertiary: Color::Reset,
            accent: Color::Reset,
            primary_end: None,
            border: BorderSet::single_line(),
            border_style: CellStyle::default(),
            border_thick: false,
        }
    }
}

} // verus!
