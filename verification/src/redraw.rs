//! Encoding changed cells as terminal commands: cursor moves, intensity
//! and color changes, and glyphs, with redundant moves and style changes
//! left out. Writing the commands to the terminal is the caller's.
use vstd::prelude::*;
use crate::color::Color;

verus! {

/// One changed cell to draw: where, which glyph, its colors, and
/// whether it is bold.
#[derive(Clone, Copy, Debug, PartialEq, Eq, Structural)]
pub struct DrawCell {
    pub x: u16,
    pub y: u16,
    pub symbol: char,
    pub fg: Color,
    pub bg: Color,
    pub bold: bool,
}

/// One terminal command.
#[derive(Clone, Copy, Debug, PartialEq, Eq, Structural)]
pub enum TermOp {
    /// Move the cursor to column `0`, row `1`.
    MoveTo(u16, u16),
    /// Bold on (`true`), or normal intensity (`false`).
    Intensity(bool),
    /// Set the foreground color.
    Foreground(Color),
    /// Set the background color.
    Background(Color),
    /// Print a glyph at the cursor, which then moves one column right.
    Print(char),
}

/// What the encoder remembers between cells: the last cell's position
/// and the intensity and colors last set, each unknown at first.
pub struct EncoderState {
    pub pos: Option<(u16, u16)>,
    pub bold: Option<bool>,
    pub fg: Option<Color>,
    pub bg: Option<Color>,
}

/// The starting state: nothing known.
pub open spec fn fresh_state() -> EncoderState {
    EncoderState { pos: None, bold: None, fg: None, bg: None }
}

/// `d` sits right after the last cell drawn, on the same row.
pub open spec fn contiguous(s: EncoderState, d: DrawCell) -> bool {
    match s.pos {
        Some((px, py)) => py == d.y && d.x >= 1 && d.x - 1 == px,
        None => false,
    }
}

/// The commands for one cell: a move unless it continues the last
/// cell's run, then each of intensity, foreground and background only
/// when it differs from what was last set, then the glyph.
pub open spec fn cell_ops(s: EncoderState, d: DrawCell) -> Seq<TermOp> {
    (if contiguous(s, d) {
        Seq::empty()
    } else {
        seq![TermOp::MoveTo(d.x, d.y)]
    }) + (if s.bold == Some(d.bold) {
        Seq::empty()
    } else {
        seq![TermOp::Intensity(d.bold)]
    }) + (if s.fg == Some(d.fg) {
        Seq::empty()
    } else {
        seq![TermOp::Foreground(d.fg)]
    }) + (if s.bg == Some(d.bg) {
        Seq::empty()
    } else {
        seq![TermOp::Background(d.bg)]
    }) + seq![TermOp::Print(d.symbol)]
}

/// The state after drawing `d`.
pub open spec fn after(d: DrawCell) -> EncoderState {
    EncoderState { pos: Some((d.x, d.y)), bold: Some(d.bold), fg: Some(d.fg), bg: Some(d.bg) }
}

/// The commands for drawing `ds` in order, starting from state `s`.
pub open spec fn encode_from(s: EncoderState, ds: Seq<DrawCell>) -> Seq<TermOp>
    decreases ds.len(),
{
    if ds.len() == 0 {
        Seq::empty()
    } else {
        cell_ops(s, ds[0]) + encode_from(after(ds[0]), ds.drop_first())
    }
}

/// The commands for drawing `ds` in order.
pub open spec fn encode(ds: Seq<DrawCell>) -> Seq<TermOp> {
    encode_from(fresh_state(), ds)
}

fn cell_ops_exec(
    out: &mut Vec<TermOp>,
    pos: Option<(u16, u16)>,
    bold: Option<bool>,
    fg: Option<Color>,
    bg: Option<Color>,
    d: DrawCell,
)
    ensures
        final(out)@ == old(out)@ + cell_ops(EncoderState { pos, bold, fg, bg }, d),
{
    let ghost s = EncoderState { pos, bold, fg, bg };
    let cont = match pos {
        Some((px, py)) => py == d.y && d.x >= 1 && d.x - 1 == px,
        None => false,
    };
    if !cont {
        out.push(TermOp::MoveTo(d.x, d.y));
    }
    let same_bold = match bold {
        Some(b) => b == d.bold,
        None => false,
    };
    if !same_bold {
        out.push(TermOp::Intensity(d.bold));
    }
    let same_fg = match fg {
        Some(c) => c == d.fg,
        None => false,
    };
    if !same_fg {
        out.push(TermOp::Foreground(d.fg));
    }
    let same_bg = match bg {
        Some(c) => c == d.bg,
        None => false,
    };
    if !same_bg {
        out.push(TermOp::Background(d.bg));
    }
    out.push(TermOp::Print(d.symbol));
    assert(out@ =~= old(out)@ + cell_ops(s, d));
}

proof fn lemma_encode_single(s: EncoderState, d: DrawCell)
    ensures
        encode_from(s, seq![d]) == cell_ops(s, d),
{
    assert(seq![d].drop_first() =~= Seq::<DrawCell>::empty());
    assert(encode_from(after(d), Seq::<DrawCell>::empty()) =~= Seq::<TermOp>::empty());
    assert(cell_ops(s, d) + Seq::<TermOp>::empty() =~= cell_ops(s, d));
}

proof fn lemma_encode_from_push(s: EncoderState, ds: Seq<DrawCell>, d: DrawCell)
    requires
        ds.len() > 0,
    ensures
        encode_from(s, ds.push(d)) == encode_from(s, ds) + cell_ops(after(ds.last()), d),
    decreases ds.len(),
{
    if ds.len() == 1 {
        assert(ds.push(d).drop_first() =~= seq![d]);
        assert(ds.drop_first() =~= Seq::<DrawCell>::empty());
        lemma_encode_single(after(ds[0]), d);
    } else {
        lemma_encode_from_push(after(ds[0]), ds.drop_first(), d);
        assert(ds.push(d).drop_first() =~= ds.drop_first().push(d));
        assert(ds.drop_first().last() == ds.last());
    }
}

/// Encodes `diffs` as terminal commands, coalescing redundant cursor
/// moves and intensity/color changes.
pub fn render_ops(diffs: &[DrawCell]) -> (r: Vec<TermOp>)
    ensures
        r@ == encode(diffs@),
{
    let mut out: Vec<TermOp> = Vec::new();
    let mut pos: Option<(u16, u16)> = None;
    let mut bold: Option<bool> = None;
    let mut fg: Option<Color> = None;
    let mut bg: Option<Color> = None;
    let mut i: usize = 0;
    while i < diffs.len()
        invariant
            0 <= i <= diffs@.len(),
            i == 0 ==> (pos is None && bold is None && fg is None && bg is None),
            i > 0 ==> (EncoderState { pos, bold, fg, bg }) == after(diffs@[i - 1]),
            out@ == encode(diffs@.take(i as int)),
        decreases diffs.len() - i,
    {
        let d = diffs[i];
        let ghost before = out@;
        cell_ops_exec(&mut out, pos, bold, fg, bg, d);
        proof {
            let pre = diffs@.take(i as int);
            assert(diffs@.take(i + 1) =~= pre.push(d));
            if i == 0 {
                lemma_encode_single(fresh_state(), d);
                assert(pre =~= Seq::<DrawCell>::empty());
                assert(pre.push(d) =~= seq![d]);
            } else {
                lemma_encode_from_push(fresh_state(), pre, d);
                assert(pre.last() == diffs@[i - 1]);
            }
        }
        pos = Some((d.x, d.y));
        bold = Some(d.bold);
        fg = Some(d.fg);
        bg = Some(d.bg);
        i = i + 1;
    }
    assert(diffs@.take(i as int) =~= diffs@);
    out
}

/// `ds` is one run: each cell right after the one before on the same
/// row, all in the first cell's intensity and colors.
pub open spec fn is_styled_run(ds: Seq<DrawCell>) -> bool {
    forall|i: int|
        0 < i < ds.len() ==> {
            &&& (#[trigger] ds[i]).y == ds[0].y
            &&& ds[i].x == ds[0].x + i
            &&& ds[i].bold == ds[0].bold
            &&& ds[i].fg == ds[0].fg
            &&& ds[i].bg == ds[0].bg
        }
}

/// The glyphs of `ds` printed one after another.
pub open spec fn prints_of(ds: Seq<DrawCell>) -> Seq<TermOp> {
    ds.map_values(|d: DrawCell| TermOp::Print(d.symbol))
}

proof fn lemma_run_tail(s: EncoderState, ds: Seq<DrawCell>)
    requires
        ds.len() > 0,
        s == after(ds[0]),
        forall|i: int|
            0 < i < ds.len() ==> {
                &&& (#[trigger] ds[i]).y == ds[0].y
                &&& ds[i].x == ds[0].x + i
                &&& ds[i].bold == ds[0].bold
                &&& ds[i].fg == ds[0].fg
                &&& ds[i].bg == ds[0].bg
            },
    ensures
        encode_from(s, ds.drop_first()) == prints_of(ds.drop_first()),
    decreases ds.len(),
{
    let rest = ds.drop_first();
    if rest.len() == 0 {
        assert(prints_of(rest) =~= Seq::<TermOp>::empty());
    } else {
        let d = rest[0];
        assert(d == ds[1]);
        assert(contiguous(s, d));
        assert(cell_ops(s, d) =~= seq![TermOp::Print(d.symbol)]);
        assert forall|i: int| 0 < i < rest.len() implies {
            &&& (#[trigger] rest[i]).y == rest[0].y
            &&& rest[i].x == rest[0].x + i
            &&& rest[i].bold == rest[0].bold
            &&& rest[i].fg == rest[0].fg
            &&& rest[i].bg == rest[0].bg
        } by {
            assert(rest[i] == ds[i + 1]);
        }
        lemma_run_tail(after(d), rest);
        assert(prints_of(rest) =~= seq![TermOp::Print(d.symbol)] + prints_of(rest.drop_first()));
    }
}

/// Law: a run of cells side by side on one row in one style is sent as
/// a single cursor move, one setting each of intensity, foreground and
/// background, and then just the glyphs — redundant moves and style
/// changes are all left out.
pub proof fn lemma_styled_run_is_coalesced(ds: Seq<DrawCell>)
    requires
        ds.len() > 0,
        is_styled_run(ds),
    ensures
        encode(ds) == seq![
            TermOp::MoveTo(ds[0].x, ds[0].y),
            TermOp::Intensity(ds[0].bold),
            TermOp::Foreground(ds[0].fg),
            TermOp::Background(ds[0].bg),
        ] + prints_of(ds),
{
    let d = ds[0];
    lemma_run_tail(after(d), ds);
    assert(cell_ops(fresh_state(), d) =~= seq![
        TermOp::MoveTo(d.x, d.y),
        TermOp::Intensity(d.bold),
        TermOp::Foreground(d.fg),
        TermOp::Background(d.bg),
        TermOp::Print(d.symbol),
    ]);
    assert(prints_of(ds) =~= seq![TermOp::Print(d.symbol)] + prints_of(ds.drop_first()));
}

/// A terminal as far as drawing goes: cursor position (unknown at
/// first), current intensity and colors (unknown at first), and every
/// glyph printed so far with where and how it was printed.
pub struct Screen {
    pub cursor: Option<(int, int)>,
    pub bold: Option<bool>,
    pub fg: Option<Color>,
    pub bg: Option<Color>,
    pub printed: Seq<(int, int, char, Color, Color, bool)>,
}

/// What one command does to the screen; a glyph printed with no known
/// cursor, intensity or color goes down as printed nowhere (the screen
/// is marked unknown by leaving `cursor` as `None`).
pub open spec fn apply(s: Screen, op: TermOp) -> Screen {
    match op {
        TermOp::MoveTo(x, y) => Screen { cursor: Some((x as int, y as int)), ..s },
        TermOp::Intensity(b) => Screen { bold: Some(b), ..s },
        TermOp::Foreground(c) => Screen { fg: Some(c), ..s },
        TermOp::Background(c) => Screen { bg: Some(c), ..s },
        TermOp::Print(ch) => match (s.cursor, s.bold, s.fg, s.bg) {
            (Some((x, y)), Some(b), Some(f), Some(g)) => Screen {
                cursor: Some((x + 1, y)),
                printed: s.printed.push((x, y, ch, f, g, b)),
                ..s
            },
            _ => s,
        },
    }
}

/// The screen after running `ops` in order.
pub open spec fn run(s: Screen, ops: Seq<TermOp>) -> Screen
    decreases ops.len(),
{
    if ops.len() == 0 {
        s
    } else {
        run(apply(s, ops[0]), ops.drop_first())
    }
}

/// What drawing `ds` should print: each cell's glyph at its position in
/// its colors and intensity, in order.
pub open spec fn expected_prints(ds: Seq<DrawCell>) -> Seq<(int, int, char, Color, Color, bool)> {
    ds.map_values(|d: DrawCell| (d.x as int, d.y as int, d.symbol, d.fg, d.bg, d.bold))
}

/// The screen agrees with what the encoder believes it last set.
pub open spec fn in_sync(scr: Screen, s: EncoderState) -> bool {
    &&& (s.pos matches Some((px, py)) ==> scr.cursor == Some((px + 1, py as int)))
    &&& (s.bold is Some ==> scr.bold == s.bold)
    &&& (s.fg is Some ==> scr.fg == s.fg)
    &&& (s.bg is Some ==> scr.bg == s.bg)
}

proof fn lemma_run_concat(s: Screen, a: Seq<TermOp>, b: Seq<TermOp>)
    ensures
        run(s, a + b) == run(run(s, a), b),
    decreases a.len(),
{
    if a.len() == 0 {
        assert(a + b =~= b);
    } else {
        assert((a + b).drop_first() =~= a.drop_first() + b);
        lemma_run_concat(apply(s, a[0]), a.drop_first(), b);
    }
}

proof fn lemma_run_single(s: Screen, op: TermOp)
    ensures
        run(s, seq![op]) == apply(s, op),
{
    let one = seq![op];
    assert(one[0] == op);
    assert(one.drop_first() =~= Seq::<TermOp>::empty());
    assert(run(apply(s, op), Seq::<TermOp>::empty()) == apply(s, op));
}

proof fn lemma_run_maybe(s: Screen, present: bool, op: TermOp)
    ensures
        run(s, if present { seq![op] } else { Seq::empty() }) == if present {
            apply(s, op)
        } else {
            s
        },
{
    if present {
        lemma_run_single(s, op);
    }
}

proof fn lemma_run_cell(scr: Screen, s: EncoderState, d: DrawCell)
    requires
        in_sync(scr, s),
    ensures
        in_sync(run(scr, cell_ops(s, d)), after(d)),
        run(scr, cell_ops(s, d)).printed == scr.printed.push(
            (d.x as int, d.y as int, d.symbol, d.fg, d.bg, d.bold),
        ),
{
    let m = if contiguous(s, d) {
        Seq::<TermOp>::empty()
    } else {
        seq![TermOp::MoveTo(d.x, d.y)]
    };
    let i = if s.bold == Some(d.bold) {
        Seq::<TermOp>::empty()
    } else {
        seq![TermOp::Intensity(d.bold)]
    };
    let f = if s.fg == Some(d.fg) {
        Seq::<TermOp>::empty()
    } else {
        seq![TermOp::Foreground(d.fg)]
    };
    let g = if s.bg == Some(d.bg) {
        Seq::<TermOp>::empty()
    } else {
        seq![TermOp::Background(d.bg)]
    };
    let p = seq![TermOp::Print(d.symbol)];
    assert(cell_ops(s, d) == m + i + f + g + p);
    lemma_run_concat(scr, m, i);
    lemma_run_concat(scr, m + i, f);
    lemma_run_concat(scr, m + i + f, g);
    lemma_run_concat(scr, m + i + f + g, p);
    lemma_run_maybe(scr, !contiguous(s, d), TermOp::MoveTo(d.x, d.y));
    let s1 = run(scr, m);
    lemma_run_maybe(s1, s.bold != Some(d.bold), TermOp::Intensity(d.bold));
    let s2 = run(s1, i);
    lemma_run_maybe(s2, s.fg != Some(d.fg), TermOp::Foreground(d.fg));
    let s3 = run(s2, f);
    lemma_run_maybe(s3, s.bg != Some(d.bg), TermOp::Background(d.bg));
    let s4 = run(s3, g);
    assert(s1.cursor == Some((d.x as int, d.y as int)));
    assert(s2.cursor == s1.cursor && s2.bold == Some(d.bold) && s2.printed == scr.printed);
    assert(s3.cursor == s1.cursor && s3.bold == Some(d.bold) && s3.fg == Some(d.fg));
    assert(s4.cursor == s1.cursor && s4.bold == Some(d.bold) && s4.fg == Some(d.fg) && s4.bg
        == Some(d.bg) && s4.printed == scr.printed);
    lemma_run_single(s4, TermOp::Print(d.symbol));
}

proof fn lemma_run_encode_from(scr: Screen, s: EncoderState, ds: Seq<DrawCell>)
    requires
        in_sync(scr, s),
    ensures
        run(scr, encode_from(s, ds)).printed == scr.printed + expected_prints(ds),
    decreases ds.len(),
{
    if ds.len() == 0 {
        assert(expected_prints(ds) =~= Seq::empty());
        assert(scr.printed + expected_prints(ds) =~= scr.printed);
    } else {
        let d = ds[0];
        lemma_run_concat(scr, cell_ops(s, d), encode_from(after(d), ds.drop_first()));
        lemma_run_cell(scr, s, d);
        let scr1 = run(scr, cell_ops(s, d));
        lemma_run_encode_from(scr1, after(d), ds.drop_first());
        assert(expected_prints(ds) =~= seq![(d.x as int, d.y as int, d.symbol, d.fg, d.bg, d.bold)]
            + expected_prints(ds.drop_first()));
        assert(scr.printed + expected_prints(ds) =~= scr1.printed + expected_prints(
            ds.drop_first(),
        ));
    }
}

/// Law: leaving out the redundant moves and style changes never changes
/// what appears — on any terminal, whatever state it starts in, the
/// encoded commands print exactly each changed cell's glyph, in order,
/// at that cell's position, in its colors and intensity.
pub proof fn lemma_encoding_prints_every_cell(scr: Screen, ds: Seq<DrawCell>)
    ensures
        run(scr, encode(ds)).printed == scr.printed + expected_prints(ds),
{
    lemma_run_encode_from(scr, fresh_state(), ds);
}

} // verus!
