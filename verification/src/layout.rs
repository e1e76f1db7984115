//! `Rect`/`Constraint`-based area splitting: divides one area into
//! ordered sub-areas along an axis.
use vstd::prelude::*;

verus! {

/// A rectangular region in cell coordinates.
#[derive(Clone, Copy, Debug, PartialEq, Eq, Structural)]
pub struct Rect {
    /// Left edge.
    pub x: u16,
    /// Top edge.
    pub y: u16,
    /// Width in cells.
    pub width: u16,
    /// Height in cells.
    pub height: u16,
}

impl Rect {
    /// The point `(x, y)` lies in the rect: inclusive of the left/top
    /// edge, exclusive of the right/bottom edge.
    pub open spec fn spec_contains(self, x: int, y: int) -> bool {
        self.x <= x < self.x + self.width && self.y <= y < self.y + self.height
    }

    /// Whether `(x, y)` falls within this rect — inclusive of the
    /// left/top edge, exclusive of the right/bottom edge.
    ///
    /// The right edge `x + width` is only computed once `x` is known to
    /// be at or past the left edge, and the bottom edge likewise; each
    /// computed edge must fit in a `u16`.
    pub fn contains(&self, x: u16, y: u16) -> (r: bool)
        requires
            x >= self.x ==> self.x + self.width <= u16::MAX,
            (x >= self.x && x < self.x + self.width && y >= self.y) ==> self.y + self.height
                <= u16::MAX,
        ensures
            r == self.spec_contains(x as int, y as int),
    {
        x >= self.x && x < self.x + self.width && y >= self.y && y < self.y + self.height
    }
}

/// Axis a `Layout` splits its area along.
#[non_exhaustive]
#[derive(Clone, Copy, Debug, PartialEq, Eq, Structural)]
pub enum Direction {
    /// Split left-to-right.
    Horizontal,
    /// Split top-to-bottom.
    Vertical,
}

/// How much space one child of a `Layout` split should take.
#[non_exhaustive]
#[derive(Clone, Copy, Debug, PartialEq, Eq, Structural)]
pub enum Constraint {
    /// Exactly this many cells.
    Fixed(u16),
    /// This percentage of the split's total size.
    Percentage(u16),
    /// At least this many cells (currently treated as exactly this many).
    Min(u16),
    /// Share of whatever space remains after fixed/percentage/min
    /// constraints, proportional to this weight.
    Fill(u16),
}

/// Splits one `Rect` into ordered sub-`Rect`s along a `Direction`, per a
/// list of `Constraint`s.
pub struct Layout {
    direction: Direction,
    constraints: Vec<Constraint>,
    margin: u16,
    spacing: u16,
}

/// The mathematical content of a `Layout`.
pub struct LayoutView {
    pub direction: Direction,
    pub constraints: Seq<Constraint>,
    pub margin: u16,
    pub spacing: u16,
}

impl View for Layout {
    type V = LayoutView;

    closed spec fn view(&self) -> LayoutView {
        LayoutView {
            direction: self.direction,
            constraints: self.constraints@,
            margin: self.margin,
            spacing: self.spacing,
        }
    }
}

/// `a - b`, or `0` when `b > a`.
pub open spec fn sat_sub(a: int, b: int) -> int {
    if a > b {
        a - b
    } else {
        0
    }
}

/// The size a non-`Fill` constraint takes out of `total`; `Fill` takes
/// nothing in this first pass.
pub open spec fn fixed_size(c: Constraint, total: int) -> int {
    match c {
        Constraint::Fixed(v) => v as int,
        Constraint::Percentage(p) => (((total * p) / 100) as u16) as int,
        Constraint::Min(v) => v as int,
        Constraint::Fill(_) => 0,
    }
}

/// Sum of `fixed_size` over a sequence of constraints.
pub open spec fn fixed_sum(cs: Seq<Constraint>, total: int) -> int
    decreases cs.len(),
{
    if cs.len() == 0 {
        0
    } else {
        fixed_sum(cs.drop_last(), total) + fixed_size(cs.last(), total)
    }
}

/// The weight of a `Fill` constraint, `0` for the others.
pub open spec fn fill_weight(c: Constraint) -> int {
    match c {
        Constraint::Fill(w) => w as int,
        _ => 0,
    }
}

/// Sum of the `Fill` weights in a sequence of constraints.
pub open spec fn fill_weight_sum(cs: Seq<Constraint>) -> int
    decreases cs.len(),
{
    if cs.len() == 0 {
        0
    } else {
        fill_weight_sum(cs.drop_last()) + fill_weight(cs.last())
    }
}

/// The size a constraint finally takes: its fixed size, or for `Fill` its
/// weight's share of `remaining` (rounded down), nothing when no `Fill`
/// carries weight.
pub open spec fn final_size(c: Constraint, total: int, remaining: int, weights: int) -> int {
    match c {
        Constraint::Fill(w) => if weights > 0 {
            (remaining * w) / weights
        } else {
            0
        },
        _ => fixed_size(c, total),
    }
}

/// Sum of `size + spacing` over the first `i` entries of `sizes`.
pub open spec fn offset_before(sizes: Seq<int>, spacing: int, i: int) -> int
    decreases i,
{
    if i <= 0 {
        0
    } else {
        offset_before(sizes, spacing, i - 1) + sizes[i - 1] + spacing
    }
}

impl LayoutView {
    /// The split area: `area` inset by the margin on every side.
    pub open spec fn inner(self, area: Rect) -> Rect {
        Rect {
            x: (area.x + self.margin) as u16,
            y: (area.y + self.margin) as u16,
            width: sat_sub(area.width as int, 2 * self.margin) as u16,
            height: sat_sub(area.height as int, 2 * self.margin) as u16,
        }
    }

    /// The number of constraints as the split counts them (a `u16`).
    pub open spec fn count16(self) -> int {
        (self.constraints.len() as u16) as int
    }

    /// Total gap between children.
    pub open spec fn spacing_total(self) -> int {
        if self.count16() > 0 {
            self.spacing * (self.count16() - 1)
        } else {
            0
        }
    }

    /// The inner area's extent along the split axis.
    pub open spec fn axis_len(self, area: Rect) -> int {
        match self.direction {
            Direction::Horizontal => self.inner(area).width as int,
            Direction::Vertical => self.inner(area).height as int,
        }
    }

    /// The space children share: the axis extent less the gaps.
    pub open spec fn total(self, area: Rect) -> int {
        sat_sub(self.axis_len(area), self.spacing_total())
    }

    /// Space left over once the fixed, percentage and min constraints
    /// have taken theirs.
    pub open spec fn remaining(self, area: Rect) -> int {
        sat_sub(self.total(area), fixed_sum(self.constraints, self.total(area)))
    }

    /// The size of child `i`.
    pub open spec fn size(self, area: Rect, i: int) -> int {
        final_size(
            self.constraints[i],
            self.total(area),
            self.remaining(area),
            fill_weight_sum(self.constraints),
        )
    }

    /// Every child's size, in order.
    pub open spec fn sizes(self, area: Rect) -> Seq<int> {
        Seq::new(self.constraints.len(), |i: int| self.size(area, i))
    }

    /// Where child `i` starts along the split axis, relative to the
    /// inner area.
    pub open spec fn offset(self, area: Rect, i: int) -> int {
        offset_before(self.sizes(area), self.spacing as int, i)
    }

    /// Child `i` of the split.
    pub open spec fn child(self, area: Rect, i: int) -> Rect {
        let inner = self.inner(area);
        match self.direction {
            Direction::Horizontal => Rect {
                x: (inner.x + self.offset(area, i)) as u16,
                y: inner.y,
                width: self.size(area, i) as u16,
                height: inner.height,
            },
            Direction::Vertical => Rect {
                x: inner.x,
                y: (inner.y + self.offset(area, i)) as u16,
                width: inner.width,
                height: self.size(area, i) as u16,
            },
        }
    }

    /// The whole split.
    pub open spec fn split(self, area: Rect) -> Seq<Rect> {
        Seq::new(self.constraints.len(), |i: int| self.child(area, i))
    }

    /// The split's arithmetic stays within `u16` (and the weight total
    /// within `u32`) at every step: the margin inset, the total gap,
    /// the fixed sizes taken, and every child's start (including the
    /// running offset past the last child).
    pub open spec fn fits(self, area: Rect) -> bool {
        let n = self.constraints.len() as int;
        &&& area.x + self.margin <= u16::MAX
        &&& area.y + self.margin <= u16::MAX
        &&& 2 * self.margin <= u16::MAX
        &&& self.spacing_total() <= u16::MAX
        &&& fixed_sum(self.constraints, self.total(area)) <= u16::MAX
        &&& fill_weight_sum(self.constraints) <= u32::MAX
        &&& self.offset(area, n) <= u16::MAX
        &&& n > 0 ==> match self.direction {
            Direction::Horizontal => self.inner(area).x + self.offset(area, n - 1) <= u16::MAX,
            Direction::Vertical => self.inner(area).y + self.offset(area, n - 1) <= u16::MAX,
        }
    }
}

proof fn lemma_fixed_sum_prefix(cs: Seq<Constraint>, total: int, i: int)
    requires
        0 <= i <= cs.len(),
        0 <= total,
    ensures
        0 <= fixed_sum(cs.subrange(0, i), total) <= fixed_sum(cs, total),
    decreases cs.len(),
{
    if i == cs.len() {
        assert(cs.subrange(0, i) =~= cs);
        lemma_fixed_sum_nonneg(cs, total);
    } else {
        lemma_fixed_sum_prefix(cs.drop_last(), total, i);
        assert(cs.drop_last().subrange(0, i) =~= cs.subrange(0, i));
    }
}

proof fn lemma_fixed_sum_nonneg(cs: Seq<Constraint>, total: int)
    ensures
        fixed_sum(cs, total) >= 0,
    decreases cs.len(),
{
    if cs.len() > 0 {
        lemma_fixed_sum_nonneg(cs.drop_last(), total);
    }
}

proof fn lemma_fill_weight_sum_prefix(cs: Seq<Constraint>, i: int)
    requires
        0 <= i <= cs.len(),
    ensures
        0 <= fill_weight_sum(cs.subrange(0, i)) <= fill_weight_sum(cs),
    decreases cs.len(),
{
    if i == cs.len() {
        assert(cs.subrange(0, i) =~= cs);
        lemma_fill_weight_sum_nonneg(cs);
    } else {
        lemma_fill_weight_sum_prefix(cs.drop_last(), i);
        assert(cs.drop_last().subrange(0, i) =~= cs.subrange(0, i));
    }
}

proof fn lemma_fill_weight_sum_nonneg(cs: Seq<Constraint>)
    ensures
        fill_weight_sum(cs) >= 0,
    decreases cs.len(),
{
    if cs.len() > 0 {
        lemma_fill_weight_sum_nonneg(cs.drop_last());
    }
}

proof fn lemma_offset_mono(sizes: Seq<int>, spacing: int, i: int, j: int)
    requires
        0 <= i <= j <= sizes.len(),
        spacing >= 0,
        forall|k: int| 0 <= k < sizes.len() ==> sizes[k] >= 0,
    ensures
        0 <= offset_before(sizes, spacing, i) <= offset_before(sizes, spacing, j),
    decreases j,
{
    if j > i {
        lemma_offset_mono(sizes, spacing, i, j - 1);
    } else if i > 0 {
        lemma_offset_mono(sizes, spacing, 0, i - 1);
    }
}

/// A `Fill` child's share never exceeds the space it shares.
proof fn lemma_fill_share_bounded(remaining: int, w: int, weights: int)
    requires
        0 <= remaining,
        0 <= w <= weights,
        weights > 0,
    ensures
        0 <= (remaining * w) / weights <= remaining,
{
    assert(remaining * w <= remaining * weights) by (nonlinear_arith)
        requires
            0 <= remaining,
            0 <= w <= weights,
    ;
    assert(0 <= remaining * w) by (nonlinear_arith)
        requires
            0 <= remaining,
            0 <= w,
    ;
    assert((remaining * weights) / weights == remaining) by (nonlinear_arith)
        requires
            weights > 0,
    ;
    vstd::arithmetic::div_mod::lemma_div_is_ordered(remaining * w, remaining * weights, weights);
    vstd::arithmetic::div_mod::lemma_div_pos_is_pos(remaining * w, weights);
}

proof fn lemma_fill_weight_le_sum(cs: Seq<Constraint>, i: int)
    requires
        0 <= i < cs.len(),
    ensures
        0 <= fill_weight(cs[i]) <= fill_weight_sum(cs),
    decreases cs.len(),
{
    lemma_fill_weight_sum_nonneg(cs.drop_last());
    if i < cs.len() - 1 {
        lemma_fill_weight_le_sum(cs.drop_last(), i);
    }
}

impl LayoutView {
    pub proof fn lemma_sizes_bounded(self, area: Rect)
        requires
            self.fits(area),
        ensures
            forall|i: int|
                0 <= i < self.constraints.len() ==> 0 <= #[trigger] self.size(area, i)
                    <= u16::MAX,
    {
        assert forall|i: int| 0 <= i < self.constraints.len() implies 0 <= #[trigger] self.size(
            area,
            i,
        ) <= u16::MAX by {
            let c = self.constraints[i];
            let total = self.total(area);
            let rem = self.remaining(area);
            let weights = fill_weight_sum(self.constraints);
            lemma_fixed_sum_nonneg(self.constraints, total);
            assert(0 <= total <= u16::MAX);
            assert(0 <= rem <= u16::MAX);
            match c {
                Constraint::Fill(w) => {
                    if weights > 0 {
                        lemma_fill_weight_le_sum(self.constraints, i);
                        lemma_fill_share_bounded(rem, w as int, weights);
                    }
                },
                _ => {},
            }
        }
    }
}


/// Sum, over the `Fill` constraints of `cs`, of the share each takes of
/// `remaining` when the weights total `weights`.
pub open spec fn fill_size_sum(cs: Seq<Constraint>, remaining: int, weights: int) -> int
    decreases cs.len(),
{
    if cs.len() == 0 {
        0
    } else {
        fill_size_sum(cs.drop_last(), remaining, weights) + match cs.last() {
            Constraint::Fill(w) => (remaining * w) / weights,
            _ => 0,
        }
    }
}

proof fn lemma_floor_div_add(a: int, b: int, w: int)
    requires
        a >= 0,
        b >= 0,
        w > 0,
    ensures
        a / w + b / w <= (a + b) / w,
{
    vstd::arithmetic::div_mod::lemma_fundamental_div_mod(a, w);
    vstd::arithmetic::div_mod::lemma_fundamental_div_mod(b, w);
    vstd::arithmetic::div_mod::lemma_mod_pos_bound(a, w);
    vstd::arithmetic::div_mod::lemma_mod_pos_bound(b, w);
    let q = a / w + b / w;
    assert(w * q == w * (a / w) + w * (b / w)) by (nonlinear_arith)
        requires
            q == a / w + b / w,
    ;
    assert(w * q <= a + b);
    vstd::arithmetic::div_mod::lemma_div_is_ordered(w * q, a + b, w);
    vstd::arithmetic::div_mod::lemma_div_multiples_vanish(q, w);
}

proof fn lemma_fill_size_sum_bounded(cs: Seq<Constraint>, remaining: int, weights: int)
    requires
        remaining >= 0,
        weights > 0,
    ensures
        0 <= fill_size_sum(cs, remaining, weights) <= (remaining * fill_weight_sum(cs)) / weights,
    decreases cs.len(),
{
    if cs.len() > 0 {
        let rest = cs.drop_last();
        lemma_fill_size_sum_bounded(rest, remaining, weights);
        lemma_fill_weight_sum_nonneg(rest);
        let a = remaining * fill_weight_sum(rest);
        let b = remaining * fill_weight(cs.last());
        assert(remaining * fill_weight_sum(rest) >= 0) by (nonlinear_arith)
            requires
                remaining >= 0,
                fill_weight_sum(rest) >= 0,
        ;
        assert(remaining * fill_weight(cs.last()) >= 0) by (nonlinear_arith)
            requires
                remaining >= 0,
                fill_weight(cs.last()) >= 0,
        ;
        assert(a + b == remaining * fill_weight_sum(cs)) by (nonlinear_arith)
            requires
                a == remaining * fill_weight_sum(rest),
                b == remaining * fill_weight(cs.last()),
                fill_weight_sum(cs) == fill_weight_sum(rest) + fill_weight(cs.last()),
        ;
        lemma_floor_div_add(a, b, weights);
        vstd::arithmetic::div_mod::lemma_div_pos_is_pos(a, weights);
        vstd::arithmetic::div_mod::lemma_div_pos_is_pos(b, weights);
    }
}

/// Law: the `Fill` children of a split together never take more than the
/// space left over once the other constraints have taken theirs, and
/// each `Fill` child's size is exactly its term of that sum.
pub proof fn lemma_fill_children_fit_remaining(layout: LayoutView, area: Rect)
    requires
        fill_weight_sum(layout.constraints) > 0,
    ensures
        fill_size_sum(
            layout.constraints,
            layout.remaining(area),
            fill_weight_sum(layout.constraints),
        ) <= layout.remaining(area),
        forall|i: int|
            0 <= i < layout.constraints.len() ==> (#[trigger] layout.constraints[i] matches Constraint::Fill(
                w,
            ) ==> layout.size(area, i) == (layout.remaining(area) * w) / fill_weight_sum(
                layout.constraints,
            )),
{
    let w = fill_weight_sum(layout.constraints);
    let rem = layout.remaining(area);
    lemma_fixed_sum_nonneg(layout.constraints, layout.total(area));
    lemma_fill_size_sum_bounded(layout.constraints, rem, w);
    vstd::arithmetic::div_mod::lemma_div_multiples_vanish(rem, w);
    assert(rem * w == w * rem) by (nonlinear_arith);
}

/// Law: a margin is exactly an inset of the area before dividing it —
/// splitting with margin `m` gives what splitting the inset area with no
/// margin gives.
pub proof fn lemma_margin_is_inset(layout: LayoutView, area: Rect)
    requires
        area.x + layout.margin <= u16::MAX,
        area.y + layout.margin <= u16::MAX,
        2 * layout.margin <= u16::MAX,
    ensures
        layout.split(area) == (LayoutView { margin: 0, ..layout }).split(layout.inner(area)),
{
    let bare = LayoutView { margin: 0, ..layout };
    let inset = layout.inner(area);
    assert(bare.inner(inset) == inset);
    assert(bare.total(inset) == layout.total(area));
    assert(bare.remaining(inset) == layout.remaining(area));
    assert(bare.sizes(inset) =~= layout.sizes(area));
    assert forall|i: int| 0 <= i < layout.constraints.len() implies #[trigger] bare.child(inset, i)
        == layout.child(area, i) by {
        assert(bare.offset(inset, i) == layout.offset(area, i));
    }
    assert(layout.split(area) =~= bare.split(inset));
}

/// Law: consecutive children of a split abut along the split axis with
/// exactly `spacing` cells between them, and every child spans the whole
/// margin-inset area across the axis.
pub proof fn lemma_split_children_abut(layout: LayoutView, area: Rect, i: int)
    requires
        layout.fits(area),
        0 <= i,
        i + 1 < layout.constraints.len(),
    ensures
        ({
            let a = layout.split(area)[i];
            let b = layout.split(area)[i + 1];
            let inner = layout.inner(area);
            match layout.direction {
                Direction::Horizontal => {
                    &&& b.x == a.x + a.width + layout.spacing
                    &&& a.y == inner.y && b.y == inner.y
                    &&& a.height == inner.height && b.height == inner.height
                },
                Direction::Vertical => {
                    &&& b.y == a.y + a.height + layout.spacing
                    &&& a.x == inner.x && b.x == inner.x
                    &&& a.width == inner.width && b.width == inner.width
                },
            }
        }),
{
    let n = layout.constraints.len() as int;
    layout.lemma_sizes_bounded(area);
    let sz = layout.sizes(area);
    assert forall|k: int| 0 <= k < sz.len() implies sz[k] >= 0 by {
        assert(sz[k] == layout.size(area, k));
    }
    lemma_offset_mono(sz, layout.spacing as int, i + 1, n - 1);
    lemma_offset_mono(sz, layout.spacing as int, i, i + 1);
    assert(sz[i] == layout.size(area, i));
}

impl Layout {
    /// Creates a layout splitting along `direction` per `constraints`,
    /// with no margin or spacing.
    pub fn new(direction: Direction, constraints: Vec<Constraint>) -> (r: Self)
        ensures
            r@.direction == direction,
            r@.constraints == constraints@,
            r@.margin == 0,
            r@.spacing == 0,
    {
        Layout { direction, constraints, margin: 0, spacing: 0 }
    }

    /// Sets a uniform margin (in cells) inset from the split area's edges
    /// before dividing it.
    pub fn margin(self, m: u16) -> (r: Self)
        ensures
            r@ == (LayoutView { margin: m, ..self@ }),
    {
        let mut s = self;
        s.margin = m;
        s
    }

    /// Sets the gap (in cells) inserted between adjacent children.
    pub fn spacing(self, s: u16) -> (r: Self)
        ensures
            r@ == (LayoutView { spacing: s, ..self@ }),
    {
        let mut l = self;
        l.spacing = s;
        l
    }

    /// Divides `area` into one `Rect` per constraint, in order.
    pub fn split(&self, area: Rect) -> (rects: Vec<Rect>)
        requires
            self@.fits(area),
        ensures
            rects@ == self@.split(area),
    {
        let ghost v = self@;
        let margin = self.margin;
        let inner = Rect {
            x: area.x + margin,
            y: area.y + margin,
            width: area.width.saturating_sub(margin * 2),
            height: area.height.saturating_sub(margin * 2),
        };
        assert(inner == v.inner(area));
        let n = #[verifier::truncate] (self.constraints.len() as u16);
        let spacing_total = if n > 0 {
            self.spacing * (n - 1)
        } else {
            0
        };
        let axis = match self.direction {
            Direction::Horizontal => inner.width,
            Direction::Vertical => inner.height,
        };
        let total = axis.saturating_sub(spacing_total);
        assert(total == v.total(area));

        // First pass: what the fixed/percentage/min constraints take, and
        // the total `Fill` weight.
        let len = self.constraints.len();
        let mut used: u16 = 0;
        let mut weights: u32 = 0;
        let mut i: usize = 0;
        while i < len
            invariant
                v == self@,
                len == v.constraints.len(),
                total == v.total(area),
                v.fits(area),
                0 <= i <= len,
                used == fixed_sum(v.constraints.subrange(0, i as int), total as int),
                weights == fill_weight_sum(v.constraints.subrange(0, i as int)),
            decreases len - i,
        {
            let c = self.constraints[i];
            let ghost pre = v.constraints.subrange(0, i as int);
            let ghost next = v.constraints.subrange(0, i + 1);
            assert(next.drop_last() =~= pre);
            assert(next.last() == c);
            proof {
                lemma_fixed_sum_prefix(v.constraints, total as int, i + 1);
                lemma_fill_weight_sum_prefix(v.constraints, i + 1);
            }
            match c {
                Constraint::Fixed(x) => {
                    used = used + x;
                },
                Constraint::Percentage(p) => {
                    assert(total as u32 * p as u32 <= u32::MAX) by (nonlinear_arith)
                        requires
                            total <= u16::MAX,
                            p <= u16::MAX,
                    ;
                    let x = #[verifier::truncate] ((total as u32 * p as u32 / 100) as u16);
                    used = used + x;
                },
                Constraint::Min(x) => {
                    used = used + x;
                },
                Constraint::Fill(w) => {
                    weights = weights + w as u32;
                },
            }
            i = i + 1;
        }
        assert(v.constraints.subrange(0, len as int) =~= v.constraints);
        let remaining = total.saturating_sub(used);
        assert(remaining == v.remaining(area));
        proof {
            v.lemma_sizes_bounded(area);
        }

        // Second pass: each child's size and position.
        let spacing = self.spacing;
        let mut rects: Vec<Rect> = Vec::with_capacity(len);
        let mut offset: u16 = 0;
        let mut j: usize = 0;
        while j < len
            invariant
                v == self@,
                len == v.constraints.len(),
                total == v.total(area),
                remaining == v.remaining(area),
                weights == fill_weight_sum(v.constraints),
                spacing == v.spacing,
                inner == v.inner(area),
                v.fits(area),
                forall|k: int| 0 <= k < len ==> 0 <= #[trigger] v.size(area, k) <= u16::MAX,
                0 <= j <= len,
                offset == v.offset(area, j as int),
                rects@.len() == j,
                forall|k: int| 0 <= k < j ==> rects@[k] == v.child(area, k),
            decreases len - j,
        {
            let c = self.constraints[j];
            let size: u16 = match c {
                Constraint::Fixed(x) => x,
                Constraint::Percentage(p) => {
                    assert(total as u32 * p as u32 <= u32::MAX) by (nonlinear_arith)
                        requires
                            total <= u16::MAX,
                            p <= u16::MAX,
                    ;
                    #[verifier::truncate] ((total as u32 * p as u32 / 100) as u16)
                },
                Constraint::Min(x) => x,
                Constraint::Fill(w) => {
                    if weights > 0 {
                        proof {
                            lemma_fill_weight_le_sum(v.constraints, j as int);
                            lemma_fill_share_bounded(remaining as int, w as int, weights as int);
                        }
                        assert(remaining as u32 * w as u32 <= u32::MAX) by (nonlinear_arith)
                            requires
                                remaining <= u16::MAX,
                                w <= u16::MAX,
                        ;
                        (remaining as u32 * w as u32 / weights) as u16
                    } else {
                        0
                    }
                },
            };
            assert(size == v.size(area, j as int));
            assert(v.sizes(area)[j as int] == size);
            proof {
                let sz = v.sizes(area);
                assert forall|k: int| 0 <= k < sz.len() implies sz[k] >= 0 by {
                    assert(sz[k] == v.size(area, k));
                }
                lemma_offset_mono(sz, spacing as int, j as int, len as int);
                lemma_offset_mono(sz, spacing as int, j + 1, len as int);
                if j + 1 < len {
                    lemma_offset_mono(sz, spacing as int, j as int, (len - 1) as int);
                }
            }
            let rect = match self.direction {
                Direction::Horizontal => Rect {
                    x: inner.x + offset,
                    y: inner.y,
                    width: size,
                    height: inner.height,
                },
                Direction::Vertical => Rect {
                    x: inner.x,
                    y: inner.y + offset,
                    width: inner.width,
                    height: size,
                },
            };
            rects.push(rect);
            offset = offset + (size + spacing);
            j = j + 1;
        }
        assert(rects@ =~= v.split(area));
        rects
    }
}

} // verus!
