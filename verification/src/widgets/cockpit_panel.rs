//! Thick, riveted, deliberately-asymmetric double-line border for a
//! jury-rigged cockpit-panel look.
use vstd::prelude::*;
use crate::color::Color;
use crate::layout::Rect;
use crate::paint::{
    Paint, Pen, EdgeGlyphs, RingGlyphs, plain, plain_edge, plain_edge_of, push_ring, ring,
    shrink, shrunk, in_u16_range, shown, ring_cell, lemma_shown_concat, lemma_ring_shows,
};
use crate::theme::Theme;
use crate::widgets::smash_border::ring_pen;

verus! {

/// A two-ring border: an outer riveted ring with one intentionally
/// mismatched corner, and a plain inner ring — colored by `focused`.
pub struct CockpitPanel {
    /// Selects `theme.primary` (bright) vs `theme.secondary` (dimmed).
    pub focused: bool,
}

/// The outer ring: `=` edges riveted with `o` every third cell from the
/// second, `#` sides riveted with `o` every second cell from the
/// second, `+` corners except a `¤` at the bottom right.
pub open spec fn outer_ring() -> RingGlyphs {
    RingGlyphs {
        horizontal: EdgeGlyphs { base: '=', mark: 'o', period: 3 },
        vertical: EdgeGlyphs { base: '#', mark: 'o', period: 2 },
        top_left: '+',
        top_right: '+',
        bottom_left: '+',
        bottom_right: '¤',
    }
}

/// The inner ring: `-` and `|` edges, `+` at every corner.
pub open spec fn inner_ring() -> RingGlyphs {
    RingGlyphs {
        horizontal: plain_edge_of('-'),
        vertical: plain_edge_of('|'),
        top_left: '+',
        top_right: '+',
        bottom_left: '+',
        bottom_right: '+',
    }
}

/// The color both rings are drawn in.
pub open spec fn panel_color(focused: bool, theme: Theme) -> Color {
    if focused {
        theme.primary
    } else {
        theme.secondary
    }
}

/// Whether `area` is large enough (4x4) for both rings.
pub open spec fn panel_fits(area: Rect) -> bool {
    area.width >= 4 && area.height >= 4
}

/// The writes that draw the panel in `area`: nothing when it is too
/// small, else the outer ring around `area` and the inner ring one cell
/// inside it.
pub open spec fn panel_paints(focused: bool, area: Rect, theme: Theme) -> Seq<Paint> {
    if !panel_fits(area) {
        Seq::empty()
    } else {
        let pen = ring_pen(panel_color(focused, theme));
        ring(area, outer_ring(), pen) + ring(shrunk(area), inner_ring(), pen)
    }
}

/// The content area left inside the panel: `area` inset by two on every
/// side, or an empty rect at `area`'s corner when it is too small.
pub open spec fn panel_inner(area: Rect) -> Rect {
    if !panel_fits(area) {
        Rect { x: area.x, y: area.y, width: 0, height: 0 }
    } else {
        Rect {
            x: (area.x + 2) as u16,
            y: (area.y + 2) as u16,
            width: (area.width - 4) as u16,
            height: (area.height - 4) as u16,
        }
    }
}

/// Law: a drawn panel shows the inner ring where the inner ring lies
/// and the outer ring (rivets, corners and the odd `¤`) where the outer
/// ring lies; the two never overlap, and nothing else is touched.
pub proof fn lemma_panel_shows(focused: bool, area: Rect, theme: Theme, x: int, y: int)
    requires
        in_u16_range(area),
        panel_fits(area),
        0 <= x <= u16::MAX,
        0 <= y <= u16::MAX,
    ensures
        shown(panel_paints(focused, area, theme), x, y) == (if ring_cell(
            shrunk(area),
            inner_ring(),
            ring_pen(panel_color(focused, theme)),
            x,
            y,
        ) is Some {
            ring_cell(shrunk(area), inner_ring(), ring_pen(panel_color(focused, theme)), x, y)
        } else {
            ring_cell(area, outer_ring(), ring_pen(panel_color(focused, theme)), x, y)
        }),
{
    let pen = ring_pen(panel_color(focused, theme));
    lemma_shown_concat(ring(area, outer_ring(), pen), ring(shrunk(area), inner_ring(), pen), x, y);
    lemma_ring_shows(area, outer_ring(), pen, x, y);
    lemma_ring_shows(shrunk(area), inner_ring(), pen, x, y);
}

impl CockpitPanel {
    /// Creates a `CockpitPanel`; `focused` selects `theme.primary`
    /// (bright) vs `theme.secondary` (dimmed) for both rings.
    pub fn new(focused: bool) -> (r: Self)
        ensures
            r.focused == focused,
    {
        CockpitPanel { focused }
    }

    /// The writes that draw the outer riveted ring and the inner plain
    /// ring, and the shrunk inner content area. Degrades to no writes
    /// and a zero-size `Rect` when `area` is too small for both rings.
    pub fn paint(&self, area: Rect, theme: &Theme) -> (r: (Vec<Paint>, Rect))
        requires
            area.width >= 4 && area.height >= 4 ==> in_u16_range(area),
        ensures
            r.0@ == panel_paints(self.focused, area, *theme),
            r.1 == panel_inner(area),
    {
        let mut out: Vec<Paint> = Vec::new();
        if area.width < 4 || area.height < 4 {
            return (out, Rect { x: area.x, y: area.y, width: 0, height: 0 });
        }
        let color = if self.focused {
            theme.primary
        } else {
            theme.secondary
        };
        let pen = Pen { fg: color, bg: Color::Reset, style: plain(), opaque: true };
        let outer = RingGlyphs {
            horizontal: EdgeGlyphs { base: '=', mark: 'o', period: 3 },
            vertical: EdgeGlyphs { base: '#', mark: 'o', period: 2 },
            top_left: '+',
            top_right: '+',
            bottom_left: '+',
            bottom_right: '¤',
        };
        push_ring(&mut out, area, outer, pen);
        let inner_outer = shrink(area);
        let inner = RingGlyphs {
            horizontal: plain_edge('-'),
            vertical: plain_edge('|'),
            top_left: '+',
            top_right: '+',
            bottom_left: '+',
            bottom_right: '+',
        };
        push_ring(&mut out, inner_outer, inner, pen);
        assert(out@ =~= panel_paints(self.focused, area, *theme));
        (
            out,
            Rect {
                x: area.x + 2,
                y: area.y + 2,
                width: area.width - 4,
                height: area.height - 4,
            },
        )
    }
}

} // verus!
