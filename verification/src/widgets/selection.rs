//! Shared selection-highlight colour resolution for the selectable
//! widgets (`List`, `Dial`, `Table`).
use vstd::prelude::*;
use crate::color::Color;
use crate::theme::Theme;

verus! {

/// The `(fg, bg)` pair of one row of a selectable widget: the theme's
/// accent on its background for the selected row and its primary on
/// the terminal background for the others; without a theme, black on
/// white for the selected row and terminal colors for the others.
pub open spec fn selection_pair(theme: Option<Theme>, selected: bool) -> (Color, Color) {
    match theme {
        Some(t) => if selected {
            (t.accent, t.background)
        } else {
            (t.primary, Color::Reset)
        },
        None => if selected {
            (Color::Black, Color::White)
        } else {
            (Color::Reset, Color::Reset)
        },
    }
}

/// The theme behind an optional reference.
pub open spec fn theme_of(theme: Option<&Theme>) -> Option<Theme> {
    match theme {
        Some(t) => Some(*t),
        None => None,
    }
}

/// Resolves the `(fg, bg)` pair for one row of a selectable widget.
/// Without a `Theme`, returns the fixed black-on-white highlight.
pub fn selection_colors(theme: Option<&Theme>, selected: bool) -> (r: (Color, Color))
    ensures
        r == selection_pair(theme_of(theme), selected),
{
    match (theme, selected) {
        (Some(t), true) => (t.accent, t.background),
        (Some(t), false) => (t.primary, Color::Reset),
        (None, true) => (Color::Black, Color::White),
        (None, false) => (Color::Reset, Color::Reset),
    }
}

} // verus!
