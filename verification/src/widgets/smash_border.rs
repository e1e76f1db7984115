//! Three-ring beveled border, drawn inward (unlike `Block`'s outward
//! second ring) for a chunky, plastic-toy look.
use vstd::prelude::*;
use crate::color::Color;
use crate::layout::Rect;
use crate::paint::{
    Paint, Pen, RingGlyphs, plain, plain_style, plain_edge, plain_edge_of, push_ring,
    ring, shrink, shrunk, in_u16_range, shown, ring_cell, lemma_shown_concat, lemma_ring_shows,
};
use crate::theme::Theme;

verus! {

/// A three-concentric-ring beveled border, each ring in a different
/// `Theme` color.
pub struct SmashBorder;

/// The pen of a ring in `color`: on the terminal's background, plain,
/// opaque.
pub open spec fn ring_pen(color: Color) -> Pen {
    Pen { fg: color, bg: Color::Reset, style: plain_style(), opaque: true }
}

/// A ring of one glyph all round.
pub open spec fn uniform_ring(c: char) -> RingGlyphs {
    RingGlyphs {
        horizontal: plain_edge_of(c),
        vertical: plain_edge_of(c),
        top_left: c,
        top_right: c,
        bottom_left: c,
        bottom_right: c,
    }
}

/// Ring `k` from the outside: `#` all round in the accent color, then
/// the theme's border glyphs in the primary color, then a dotted ring
/// (`-` and `:` edges, `.` corners) in the tertiary color.
pub open spec fn smash_ring(theme: Theme, k: int) -> (RingGlyphs, Color) {
    if k == 0 {
        (uniform_ring('#'), theme.accent)
    } else if k == 1 {
        (
            RingGlyphs {
                horizontal: plain_edge_of(theme.border.horizontal),
                vertical: plain_edge_of(theme.border.vertical),
                top_left: theme.border.top_left,
                top_right: theme.border.top_right,
                bottom_left: theme.border.bottom_left,
                bottom_right: theme.border.bottom_right,
            },
            theme.primary,
        )
    } else {
        (
            RingGlyphs {
                horizontal: plain_edge_of('-'),
                vertical: plain_edge_of(':'),
                top_left: '.',
                top_right: '.',
                bottom_left: '.',
                bottom_right: '.',
            },
            theme.tertiary,
        )
    }
}

/// The writes and the remaining inner area when rings `k` onward are
/// drawn inward from `inner`, stopping at the first that no longer fits
/// (an area under two cells along either axis).
pub open spec fn smash_from(theme: Theme, inner: Rect, k: int) -> (Seq<Paint>, Rect)
    decreases 3 - k,
{
    if k >= 3 || inner.width < 2 || inner.height < 2 {
        (Seq::empty(), inner)
    } else {
        let (g, color) = smash_ring(theme, k);
        let (rest, last) = smash_from(theme, shrunk(inner), k + 1);
        (ring(inner, g, ring_pen(color)) + rest, last)
    }
}

fn smash_ring_exec(theme: &Theme, k: u8) -> (r: (RingGlyphs, Color))
    requires
        k < 3,
    ensures
        r == smash_ring(*theme, k as int),
{
    if k == 0 {
        (
            RingGlyphs {
                horizontal: plain_edge('#'),
                vertical: plain_edge('#'),
                top_left: '#',
                top_right: '#',
                bottom_left: '#',
                bottom_right: '#',
            },
            theme.accent,
        )
    } else if k == 1 {
        (
            RingGlyphs {
                horizontal: plain_edge(theme.border.horizontal),
                vertical: plain_edge(theme.border.vertical),
                top_left: theme.border.top_left,
                top_right: theme.border.top_right,
                bottom_left: theme.border.bottom_left,
                bottom_right: theme.border.bottom_right,
            },
            theme.primary,
        )
    } else {
        (
            RingGlyphs {
                horizontal: plain_edge('-'),
                vertical: plain_edge(':'),
                top_left: '.',
                top_right: '.',
                bottom_left: '.',
                bottom_right: '.',
            },
            theme.tertiary,
        )
    }
}

proof fn lemma_shrunk_in_range(r: Rect)
    requires
        in_u16_range(r),
        r.width >= 2,
        r.height >= 2,
    ensures
        in_u16_range(shrunk(r)),
        r.x < u16::MAX,
        r.y < u16::MAX,
{
}

/// What cell (`x`, `y`) shows once rings `k` onward are drawn inward
/// from `inner`: the ring it lies on, or `None` off every drawn ring.
pub open spec fn smash_cell(theme: Theme, inner: Rect, k: int, x: int, y: int) -> Option<Paint>
    decreases 3 - k,
{
    if k >= 3 || inner.width < 2 || inner.height < 2 {
        None
    } else {
        let (g, color) = smash_ring(theme, k);
        let deeper = smash_cell(theme, shrunk(inner), k + 1, x, y);
        if deeper is Some {
            deeper
        } else {
            ring_cell(inner, g, ring_pen(color), x, y)
        }
    }
}

/// Law: after the rings are drawn, each cell shows the glyph and color
/// of the ring it lies on — the accent `#` ring outermost, the theme's
/// border in the primary color next, the dotted tertiary ring inside —
/// and cells on no ring are left alone.
pub proof fn lemma_smash_shows(theme: Theme, inner: Rect, k: int, x: int, y: int)
    requires
        in_u16_range(inner),
        0 <= k,
        0 <= x <= u16::MAX,
        0 <= y <= u16::MAX,
    ensures
        shown(smash_from(theme, inner, k).0, x, y) == smash_cell(theme, inner, k, x, y),
    decreases 3 - k,
{
    if k < 3 && inner.width >= 2 && inner.height >= 2 {
        let (g, color) = smash_ring(theme, k);
        lemma_shrunk_in_range(inner);
        lemma_smash_shows(theme, shrunk(inner), k + 1, x, y);
        lemma_shown_concat(
            ring(inner, g, ring_pen(color)),
            smash_from(theme, shrunk(inner), k + 1).0,
            x,
            y,
        );
        lemma_ring_shows(inner, g, ring_pen(color), x, y);
    }
}

/// Law: an area of at least 6x6 cells holds all three rings, and the
/// content area left is `area` inset by three cells on every side.
pub proof fn lemma_smash_inner(theme: Theme, area: Rect)
    requires
        in_u16_range(area),
        area.width >= 6,
        area.height >= 6,
    ensures
        smash_from(theme, area, 0).1 == (Rect {
            x: (area.x + 3) as u16,
            y: (area.y + 3) as u16,
            width: (area.width - 6) as u16,
            height: (area.height - 6) as u16,
        }),
{
    let a1 = shrunk(area);
    let a2 = shrunk(a1);
    let a3 = shrunk(a2);
    assert(smash_from(theme, a3, 3).1 == a3);
    assert(smash_from(theme, a2, 2).1 == a3);
    assert(smash_from(theme, a1, 1).1 == a3);
}

impl SmashBorder {
    /// Creates a `SmashBorder`.
    pub fn new() -> (r: Self) {
        SmashBorder
    }

    /// The writes that draw all three rings inward from `area`, each
    /// ring only while the area left is at least 2x2, and the shrunk
    /// inner content area.
    pub fn paint(&self, area: Rect, theme: &Theme) -> (r: (Vec<Paint>, Rect))
        requires
            area.width >= 2 && area.height >= 2 ==> in_u16_range(area),
        ensures
            r.0@ == smash_from(*theme, area, 0).0,
            r.1 == smash_from(*theme, area, 0).1,
    {
        let mut out: Vec<Paint> = Vec::new();
        if area.width < 2 || area.height < 2 {
            return (out, area);
        }
        let mut inner = area;
        let mut k: u8 = 0;
        while k < 3
            invariant
                k <= 3,
                in_u16_range(inner),
                out@ + smash_from(*theme, inner, k as int).0 == smash_from(*theme, area, 0).0,
                smash_from(*theme, inner, k as int).1 == smash_from(*theme, area, 0).1,
            ensures
                k <= 3,
                out@ + smash_from(*theme, inner, k as int).0 == smash_from(*theme, area, 0).0,
                smash_from(*theme, inner, k as int).1 == smash_from(*theme, area, 0).1,
                k >= 3 || inner.width < 2 || inner.height < 2,
            decreases 3 - k,
        {
            if inner.width < 2 || inner.height < 2 {
                break;
            }
            let (g, color) = smash_ring_exec(theme, k);
            let ghost before = out@;
            let pen = Pen { fg: color, bg: Color::Reset, style: plain(), opaque: true };
            push_ring(&mut out, inner, g, pen);
            proof {
                lemma_shrunk_in_range(inner);
                let rest = smash_from(*theme, shrunk(inner), k + 1).0;
                assert(smash_from(*theme, inner, k as int).0 == ring(inner, g, pen) + rest);
                assert(before + (ring(inner, g, pen) + rest) =~= out@ + rest);
            }
            inner = shrink(inner);
            k = k + 1;
        }
        proof {
            assert(smash_from(*theme, inner, k as int).0 =~= Seq::<Paint>::empty());
            assert(out@ + Seq::<Paint>::empty() =~= out@);
        }
        (out, inner)
    }
}

impl Default for SmashBorder {
    fn default() -> (r: Self) {
        Self::new()
    }
}

} // verus!
