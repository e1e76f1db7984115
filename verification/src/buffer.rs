//! Cell styling: the attributes a terminal cell carries besides its
//! glyph and colors.
use vstd::prelude::*;

verus! {

/// Text intensity — a single SGR axis; a cell is bold, dim, or neither,
/// never more than one at once.
#[non_exhaustive]
#[derive(Clone, Copy, PartialEq, Eq, Hash, Debug, Structural)]
pub enum Intensity {
    /// No intensity styling.
    Normal,
    /// Bold (increased intensity).
    Bold,
    /// Dim (decreased intensity).
    Dim,
}

impl Default for Intensity {
    fn default() -> (r: Self)
        ensures
            r == Intensity::Normal,
    {
        Intensity::Normal
    }
}

/// Text styling flags for a single cell, beyond color.
#[derive(Clone, Copy, PartialEq, Eq, Debug, Structural)]
pub struct CellStyle {
    /// Bold/dim/neither — mutually exclusive by construction.
    pub intensity: Intensity,
    /// Whether the cell renders underlined.
    pub underline: bool,
    /// Whether the cell renders italic.
    pub italic: bool,
    /// Whether fg/bg render swapped.
    pub reverse: bool,
    /// Whether the cell renders with a strikethrough.
    pub strikethrough: bool,
}

impl Default for CellStyle {
    fn default() -> (r: Self)
        ensures
            r == (CellStyle {
                intensity: Intensity::Normal,
                underline: false,
                italic: false,
                reverse: false,
                strikethrough: false,
            }),
    {
        CellStyle {
            intensity: Intensity::Normal,
            underline: false,
            italic: false,
            reverse: false,
            strikethrough: false,
        }
    }
}

} // verus!
