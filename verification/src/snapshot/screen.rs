//! The screen a terminal shows after a stream of output, as the vt100
//! parser reads it, and capturing that screen as a rasterized frame.
use vstd::prelude::*;
use crate::snapshot::color::ScreenColor;
use vt100::Color as Vc;
use crate::snapshot::render::{
    Frame, ParsedCell, RenderError, fits_in_memory, observed, render_parsed, rendered,
};

verus! {

/// The text side of each cell, row by row, of a `rows` x `cols` vt100
/// screen (without scrollback) after it has processed `stream`: the
/// first character of the cell's contents, and whether it is bold,
/// underlined and in reverse video; `None` where the screen has no cell.
pub uninterp spec fn vt_glyphs(stream: Seq<u8>, rows: u16, cols: u16) -> Seq<
    Option<(Option<char>, bool, bool, bool)>,
>;

/// The colors of each cell, row by row, of that same screen:
/// foreground, then background; `None` where the screen has no cell.
pub uninterp spec fn vt_colors(stream: Seq<u8>, rows: u16, cols: u16) -> Seq<
    Option<(ScreenColor, ScreenColor)>,
>;

/// The cells whose text sides are `glyphs` and whose colors are
/// `colors`, position by position; `None` where either has no cell.
pub open spec fn zip_cells(
    glyphs: Seq<Option<(Option<char>, bool, bool, bool)>>,
    colors: Seq<Option<(ScreenColor, ScreenColor)>>,
) -> Seq<Option<ParsedCell>> {
    Seq::new(
        glyphs.len(),
        |k: int|
            match (glyphs[k], colors[k]) {
                (Some((first, bold, underline, inverse)), Some((fg, bg))) => Some(
                    ParsedCell { first, fg, bg, bold, underline, inverse },
                ),
                _ => None,
            },
    )
}

/// The cells of a `rows` x `cols` vt100 screen after `stream`, row by
/// row, each with its first character, colors and drawn attributes.
pub open spec fn vt_cells(stream: Seq<u8>, rows: u16, cols: u16) -> Seq<Option<ParsedCell>> {
    zip_cells(vt_glyphs(stream, rows, cols), vt_colors(stream, rows, cols))
}

/// Calls `vt100::Parser::new(rows, cols, 0)` and `Parser::process(stream)`,
/// then `Screen::cell(row, col)` for every position, row by row, reading
/// each cell's `contents` (its first character), `bold`, `underline` and
/// `inverse`. Claimed: the result is `vt_glyphs(stream@, rows, cols)`,
/// one entry per position. What the parser makes of the stream is left
/// to the name.
#[verifier::external_body]
fn screen_glyphs(stream: &[u8], rows: u16, cols: u16) -> (r: Vec<
    Option<(Option<char>, bool, bool, bool)>,
>)
    requires
        rows > 0,
        cols > 0,
    ensures
        r@ == vt_glyphs(stream@, rows, cols),
        r@.len() == rows * cols,
{
    let mut p = vt100::Parser::new(rows.try_into().unwrap(), cols.try_into().unwrap(), 0);
    p.process(stream);
    let s = p.screen();
    let at = move |r: u16, c: u16| s.cell(r, c).map(
        |c| (c.contents().chars().next(), c.bold(), c.underline(), c.inverse()),
    );
    (0..rows).flat_map(|r| (0..cols).map(move |c| at(r, c))).collect()
}

/// Calls `vt100::Parser::new(rows, cols, 0)` and `Parser::process(stream)`,
/// then `Screen::cell(row, col)` for every position, row by row, reading
/// each cell's `fgcolor` and `bgcolor` (a `vt100::Color` variant becomes
/// the `ScreenColor` variant of the same name and fields). Claimed: the
/// result is `vt_colors(stream@, rows, cols)`, one entry per position.
#[verifier::external_body]
fn screen_colors(stream: &[u8], rows: u16, cols: u16) -> (r: Vec<Option<(ScreenColor, ScreenColor)>>)
    requires
        rows > 0,
        cols > 0,
    ensures
        r@ == vt_colors(stream@, rows, cols),
        r@.len() == rows * cols,
{
    let mut p = vt100::Parser::new(rows.try_into().unwrap(), cols.try_into().unwrap(), 0);
    p.process(stream);
    let k = |c: Vc| match c {
        Vc::Default => ScreenColor::Default,
        Vc::Idx(i) => ScreenColor::Idx(i),
        Vc::Rgb(r, g, b) => ScreenColor::Rgb(r, g, b),
    };
    let s = p.screen();
    let at = move |r: u16, c: u16| s.cell(r, c).map(|c| (k(c.fgcolor()), k(c.bgcolor())));
    (0..rows).flat_map(|r| (0..cols).map(move |c| at(r, c))).collect()
}

/// Puts each position's text side and colors together into one cell.
pub fn parsed_cells(
    glyphs: &[Option<(Option<char>, bool, bool, bool)>],
    colors: &[Option<(ScreenColor, ScreenColor)>],
) -> (r: Vec<Option<ParsedCell>>)
    requires
        glyphs@.len() == colors@.len(),
    ensures
        r@ == zip_cells(glyphs@, colors@),
{
    let mut out: Vec<Option<ParsedCell>> = Vec::new();
    let mut k: usize = 0;
    while k < glyphs.len()
        invariant
            glyphs@.len() == colors@.len(),
            k <= glyphs@.len(),
            out@ =~= zip_cells(glyphs@, colors@).take(k as int),
        decreases glyphs.len() - k,
    {
        let cell = match (glyphs[k], colors[k]) {
            (Some((first, bold, underline, inverse)), Some((fg, bg))) => Some(
                ParsedCell { first, fg, bg, bold, underline, inverse },
            ),
            _ => None,
        };
        out.push(cell);
        k = k + 1;
        assert(out@ =~= zip_cells(glyphs@, colors@).take(k as int));
    }
    assert(zip_cells(glyphs@, colors@).take(k as int) =~= zip_cells(glyphs@, colors@));
    out
}

/// The cells of a `rows` x `cols` vt100 screen after `stream`, row by
/// row.
pub fn screen_cells(stream: &[u8], rows: u16, cols: u16) -> (r: Vec<Option<ParsedCell>>)
    requires
        rows > 0,
        cols > 0,
    ensures
        r@ == vt_cells(stream@, rows, cols),
        r@.len() == rows * cols,
{
    let g = screen_glyphs(stream, rows, cols);
    let c = screen_colors(stream, rows, cols);
    parsed_cells(g.as_slice(), c.as_slice())
}

/// Appends `pending` — the output that arrived since the last capture —
/// to the `stream` captured so far, and rasterizes the `rows` x `cols`
/// screen the terminal shows after the whole stream.
pub fn capture(stream: &mut Vec<u8>, pending: &[u8], rows: u16, cols: u16) -> (r: Result<
    Frame,
    RenderError,
>)
    requires
        rows > 0,
        cols > 0,
        fits_in_memory(rows as int, cols as int),
    ensures
        final(stream)@ == old(stream)@ + pending@,
        rendered(
            rows,
            cols,
            vt_cells(final(stream)@, rows, cols).map_values(|c: Option<ParsedCell>| observed(c)),
            r,
        ),
{
    let mut i: usize = 0;
    while i < pending.len()
        invariant
            i <= pending@.len(),
            stream@ == old(stream)@ + pending@.take(i as int),
        decreases pending.len() - i,
    {
        stream.push(pending[i]);
        i = i + 1;
        assert(pending@.take(i as int) =~= pending@.take(i - 1).push(pending@[i - 1]));
    }
    assert(pending@.take(i as int) =~= pending@);
    let cells = screen_cells(stream.as_slice(), rows, cols);
    render_parsed(rows, cols, &cells)
}

} // verus!
