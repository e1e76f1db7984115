//! Header-row-plus-data-rows table with fixed-width columns, and
//! fitting cell text into a column by display width.
use vstd::prelude::*;
#[allow(unused_imports)]
use unicode_width::UnicodeWidthChar;
use crate::color::Color;
use crate::layout::Rect;
use crate::paint::{Paint, Pen, plain, plain_style, paint, paint_of};
use crate::text::{str_chars, string_of_chars};
use crate::theme::Theme;
use crate::widgets::selection::{selection_colors, selection_pair, theme_of};

verus! {

/// What `unicode_width::UnicodeWidthChar::width` returns for `c`: its
/// display width in columns, `None` for a control character.
pub uninterp spec fn char_width(c: char) -> Option<usize>;

/// Calls `<char as unicode_width::UnicodeWidthChar>::width(c)`. Claimed:
/// the result is `char_width(c)`; a width fits in a `u8` (the crate
/// stores widths as `u8`); printable ASCII (U+0020-U+007E) is one column;
/// U+0000-U+001F and U+007F-U+009F are control characters (`None`); the
/// horizontal ellipsis U+2026 is one column (its entry in the crate's
/// width tables; it is East Asian Ambiguous, which `width` counts as
/// narrow).
#[verifier::external_body]
fn display_width(c: char) -> (r: Option<usize>)
    ensures
        r == char_width(c),
        r matches Some(w) ==> w <= 255,
        ('\u{20}' <= c && c < '\u{7f}') ==> r == Some(1usize),
        (c < '\u{20}' || ('\u{7f}' <= c && c < '\u{a0}')) ==> r is None,
        c == '\u{2026}' ==> r == Some(1usize),
{
    c.width()
}

/// The columns `c` takes: its width, zero for a control character.
pub open spec fn cols(c: char) -> nat {
    match char_width(c) {
        Some(w) => w as nat,
        None => 0,
    }
}

/// The columns each character of `cs` takes.
pub open spec fn widths_of(cs: Seq<char>) -> Seq<usize> {
    Seq::new(cs.len(), |i: int| cols(cs[i]) as usize)
}

/// The columns a run of characters with widths `ws` takes in all.
pub open spec fn total_width(ws: Seq<usize>) -> nat
    decreases ws.len(),
{
    if ws.len() == 0 {
        0
    } else {
        ws[0] as nat + total_width(ws.drop_first())
    }
}

/// How many leading characters, of widths `ws`, fit in `budget`
/// columns, taken one at a time and stopping at the first that would
/// overflow — so a wide glyph is never split.
pub open spec fn fit_count(ws: Seq<usize>, budget: nat) -> nat
    decreases ws.len(),
{
    if ws.len() == 0 || ws[0] > budget {
        0
    } else {
        1 + fit_count(ws.drop_first(), (budget - ws[0]) as nat)
    }
}

/// `cell`, whose characters take `ws` columns each, fitted into `width`
/// columns: untouched when it fits; otherwise cut and ended with U+2026
/// when at least one character fits before the marker in `width - 1`
/// columns (only tried when `width > 1`); otherwise cut to `width`
/// columns with no marker; empty for width zero.
pub open spec fn fitted_by(cell: Seq<char>, ws: Seq<usize>, width: nat) -> Seq<char> {
    if width == 0 {
        Seq::empty()
    } else if total_width(ws) <= width {
        cell
    } else if width > 1 && fit_count(ws, (width - 1) as nat) > 0 {
        cell.take(fit_count(ws, (width - 1) as nat) as int).push('\u{2026}')
    } else {
        cell.take(fit_count(ws, width) as int)
    }
}

/// `cell` fitted into `width` display columns.
pub open spec fn fitted(cell: Seq<char>, width: nat) -> Seq<char> {
    fitted_by(cell, widths_of(cell), width)
}

fn char_cols(c: char) -> (r: usize)
    ensures
        r == cols(c),
        r <= 255,
        c == '\u{2026}' ==> r == 1,
{
    match display_width(c) {
        Some(w) => w,
        None => 0,
    }
}

proof fn lemma_total_width_concat(a: Seq<usize>, b: Seq<usize>)
    ensures
        total_width(a + b) == total_width(a) + total_width(b),
    decreases a.len(),
{
    if a.len() == 0 {
        assert(a + b =~= b);
    } else {
        lemma_total_width_concat(a.drop_first(), b);
        assert((a + b).drop_first() =~= a.drop_first() + b);
    }
}

proof fn lemma_fit_count_fits(ws: Seq<usize>, budget: nat)
    ensures
        fit_count(ws, budget) <= ws.len(),
        total_width(ws.take(fit_count(ws, budget) as int)) <= budget,
    decreases ws.len(),
{
    let k = fit_count(ws, budget);
    if ws.len() == 0 || ws[0] > budget {
        assert(ws.take(0) =~= Seq::<usize>::empty());
    } else {
        let rest = ws.drop_first();
        let b2 = (budget - ws[0]) as nat;
        lemma_fit_count_fits(rest, b2);
        assert(ws.take(k as int).drop_first() =~= rest.take(fit_count(rest, b2) as int));
    }
}

proof fn lemma_fit_count_longest(ws: Seq<usize>, budget: nat)
    ensures
        forall|m: int|
            fit_count(ws, budget) < m <= ws.len() ==> #[trigger] total_width(ws.take(m)) > budget,
    decreases ws.len(),
{
    if ws.len() > 0 {
        let rest = ws.drop_first();
        if ws[0] <= budget {
            lemma_fit_count_longest(rest, (budget - ws[0]) as nat);
        }
        assert forall|m: int| fit_count(ws, budget) < m <= ws.len() implies #[trigger] total_width(
            ws.take(m),
        ) > budget by {
            assert(ws.take(m).drop_first() =~= rest.take(m - 1));
            assert(ws.take(m)[0] == ws[0]);
            assert(total_width(ws.take(m)) == ws[0] + total_width(rest.take(m - 1)));
            if ws[0] <= budget {
                assert(total_width(rest.take(m - 1)) > (budget - ws[0]) as nat);
            }
        }
    }
}

/// Law: the cut `fit` makes is the longest start of the cell that fits —
/// the first `fit_count` characters take at most `budget` columns, and
/// every longer start takes more.
pub proof fn lemma_fit_longest_prefix(cell: Seq<char>, budget: nat)
    ensures
        fit_count(widths_of(cell), budget) <= cell.len(),
        total_width(widths_of(cell.take(fit_count(widths_of(cell), budget) as int))) <= budget,
        forall|m: int|
            fit_count(widths_of(cell), budget) < m <= cell.len() ==> #[trigger] total_width(
                widths_of(cell.take(m)),
            ) > budget,
{
    let ws = widths_of(cell);
    lemma_fit_count_fits(ws, budget);
    lemma_fit_count_longest(ws, budget);
    assert(widths_of(cell.take(fit_count(ws, budget) as int)) =~= ws.take(
        fit_count(ws, budget) as int,
    ));
    assert forall|m: int| fit_count(ws, budget) < m <= cell.len() implies #[trigger] total_width(
        widths_of(cell.take(m)),
    ) > budget by {
        assert(widths_of(cell.take(m)) =~= ws.take(m));
    }
}

/// Whether characters of widths `ws` fit in `width` columns; stops
/// adding as soon as the running total passes `width`, so it never
/// overflows.
fn widths_fit(ws: &[usize], width: usize) -> (r: bool)
    ensures
        r == (total_width(ws@) <= width),
{
    let mut used: usize = 0;
    let mut i: usize = 0;
    assert(ws@.skip(0) =~= ws@);
    while i < ws.len()
        invariant
            0 <= i <= ws@.len(),
            used <= width,
            total_width(ws@) == used + total_width(ws@.skip(i as int)),
        decreases ws.len() - i,
    {
        assert(ws@.skip(i as int).drop_first() =~= ws@.skip(i + 1));
        if ws[i] > width - used {
            return false;
        }
        used = used + ws[i];
        i = i + 1;
    }
    assert(ws@.skip(i as int) =~= Seq::<usize>::empty());
    true
}

/// How many leading characters, of widths `ws`, fit in `budget`
/// columns.
fn count_fitting(ws: &[usize], budget: usize) -> (r: usize)
    ensures
        r == fit_count(ws@, budget as nat),
{
    let mut used: usize = 0;
    let mut i: usize = 0;
    assert(ws@.skip(0) =~= ws@);
    while i < ws.len()
        invariant
            0 <= i <= ws@.len(),
            used <= budget,
            fit_count(ws@, budget as nat) == i + fit_count(ws@.skip(i as int), (budget - used) as nat),
        decreases ws.len() - i,
    {
        assert(ws@.skip(i as int).drop_first() =~= ws@.skip(i + 1));
        if ws[i] > budget - used {
            return i;
        }
        used = used + ws[i];
        i = i + 1;
    }
    assert(ws@.skip(i as int) =~= Seq::<usize>::empty());
    i
}

/// The first `n` characters of `cs`.
fn prefix(cs: &Vec<char>, n: usize) -> (r: Vec<char>)
    requires
        n <= cs@.len(),
    ensures
        r@ == cs@.take(n as int),
{
    let mut out: Vec<char> = Vec::new();
    let mut i: usize = 0;
    while i < n
        invariant
            n <= cs@.len(),
            i <= n,
            out@ == cs@.take(i as int),
        decreases n - i,
    {
        out.push(cs[i]);
        i = i + 1;
        assert(out@ =~= cs@.take(i as int));
    }
    out
}

/// Fits `cell` into `width` columns given the columns each of its
/// characters takes (`widths`, one per character), appending U+2026
/// when it is cut.
pub fn fit_by_widths(cell: &str, widths: &[usize], width: u16) -> (r: String)
    requires
        widths@.len() == cell@.len(),
    ensures
        r@ == fitted_by(cell@, widths@, width as nat),
{
    let width = width as usize;
    if width == 0 {
        return String::new();
    }
    let cs = str_chars(cell);
    if widths_fit(widths, width) {
        return string_of_chars(&cs);
    }
    if width > 1 {
        let k = count_fitting(widths, width - 1);
        if k > 0 {
            proof {
                lemma_fit_count_fits(widths@, (width - 1) as nat);
            }
            let mut out = prefix(&cs, k);
            out.push('\u{2026}');
            return string_of_chars(&out);
        }
    }
    let k = count_fitting(widths, width);
    proof {
        lemma_fit_count_fits(widths@, width as nat);
    }
    let out = prefix(&cs, k);
    string_of_chars(&out)
}

/// The display widths of `cs`'s characters, one per character.
fn char_widths(cs: &Vec<char>) -> (r: Vec<usize>)
    ensures
        r@ == widths_of(cs@),
{
    let mut out: Vec<usize> = Vec::new();
    let mut i: usize = 0;
    while i < cs.len()
        invariant
            i <= cs@.len(),
            out@ == widths_of(cs@.take(i as int)),
        decreases cs.len() - i,
    {
        out.push(char_cols(cs[i]));
        i = i + 1;
        assert(out@ =~= widths_of(cs@.take(i as int)));
    }
    assert(cs@.take(i as int) =~= cs@);
    out
}

/// Fits `cell` into `width` display columns, appending U+2026 when it
/// is cut. Measures display width rather than `char` count, and never
/// splits a wide glyph across the boundary; the result never takes more
/// than `width` columns.
pub fn fit(cell: &str, width: u16) -> (r: String)
    ensures
        r@ == fitted(cell@, width as nat),
        total_width(widths_of(r@)) <= width,
{
    let cs = str_chars(cell);
    let widths = char_widths(&cs);
    let marker = char_cols('\u{2026}');
    let r = fit_by_widths(cell, widths.as_slice(), width);
    proof {
        lemma_fitted_fits(cell@, width as nat, marker);
    }
    r
}

proof fn lemma_fitted_fits(cell: Seq<char>, width: nat, marker: usize)
    requires
        marker == cols('\u{2026}'),
        marker == 1,
    ensures
        total_width(widths_of(fitted(cell, width))) <= width,
{
    let ws = widths_of(cell);
    if width == 0 {
        assert(widths_of(Seq::<char>::empty()) =~= Seq::<usize>::empty());
    } else if total_width(ws) <= width {
    } else if width > 1 && fit_count(ws, (width - 1) as nat) > 0 {
        let k = fit_count(ws, (width - 1) as nat);
        lemma_fit_count_fits(ws, (width - 1) as nat);
        let head = cell.take(k as int);
        assert(widths_of(head) =~= ws.take(k as int));
        assert(widths_of(head.push('\u{2026}')) =~= ws.take(k as int) + seq![1usize]);
        lemma_total_width_concat(ws.take(k as int), seq![1usize]);
        assert(seq![1usize].drop_first() =~= Seq::<usize>::empty());
        assert(total_width(seq![1usize]) == 1) by {
            reveal_with_fuel(total_width, 2);
        }
        assert(fitted(cell, width) == head.push('\u{2026}'));
    } else {
        let k = fit_count(ws, width);
        lemma_fit_count_fits(ws, width);
        assert(widths_of(cell.take(k as int)) =~= ws.take(k as int));
        assert(fitted(cell, width) == cell.take(k as int));
    }
}

/// Law: a fitted cell is a start of the cell, or a non-empty start of it
/// followed by a single U+2026 — never the marker alone; and a cell that
/// fits is left whole.
pub proof fn lemma_fitted_shape(cell: Seq<char>, width: nat)
    ensures
        ({
            let r = fitted(cell, width);
            ||| (r.len() <= cell.len() && r == cell.take(r.len() as int))
            ||| (1 < r.len() <= cell.len() + 1 && r.last() == '\u{2026}' && r.drop_last() == cell.take(
                r.len() - 1,
            ))
        }),
        width > 0 && total_width(widths_of(cell)) <= width ==> fitted(cell, width) == cell,
{
    let ws = widths_of(cell);
    if width == 0 {
        assert(cell.take(0) =~= Seq::<char>::empty());
    } else if total_width(ws) <= width {
        assert(cell.take(cell.len() as int) =~= cell);
    } else if width > 1 && fit_count(ws, (width - 1) as nat) > 0 {
        let k = fit_count(ws, (width - 1) as nat);
        lemma_fit_count_fits(ws, (width - 1) as nat);
        assert(cell.take(k as int).push('\u{2026}').drop_last() =~= cell.take(k as int));
    } else {
        lemma_fit_count_fits(ws, width);
    }
}

/// A table with a header row and selectable data rows, fixed-width
/// columns.
pub struct Table<'a> {
    headers: &'a [String],
    rows: &'a [Vec<String>],
    selected: usize,
    col_width: u16,
    theme: Option<&'a Theme>,
}

/// The pen of a table row in the colors `pair`.
pub open spec fn table_pen(pair: (Color, Color)) -> Pen {
    Pen { fg: pair.0, bg: pair.1, style: plain_style(), opaque: true }
}

/// Character `i` of `cell`, or a blank past its end.
pub open spec fn char_or_blank(cell: Seq<char>, i: int) -> char {
    if 0 <= i < cell.len() {
        cell[i]
    } else {
        ' '
    }
}

/// How many cells of a column starting at `x` fit before the area's
/// right edge: the column width, less whatever would cross the edge.
pub open spec fn run_len(area: Rect, x: int, width: int) -> int {
    let room = area.x + area.width - x;
    if room <= 0 {
        0
    } else if room < width {
        room
    } else {
        width
    }
}

/// The writes of one table cell: its column's cells from `x`, each the
/// cell's character at that offset or a blank, cut at the area's edge.
pub open spec fn cell_run(area: Rect, y: int, x: int, cell: Seq<char>, width: int, pen: Pen) -> Seq<
    Paint,
> {
    Seq::new(
        run_len(area, x, width) as nat,
        |i: int| paint_of(x + i, y, char_or_blank(cell, i), pen),
    )
}

/// The writes of cells `j` onward of a table row, cell `j`'s column
/// starting at `x` and each further column `width` to the right.
pub open spec fn row_from(
    area: Rect,
    y: int,
    cells: Seq<Seq<char>>,
    j: int,
    x: int,
    width: int,
    pen: Pen,
) -> Seq<Paint>
    decreases cells.len() - j,
{
    if j >= cells.len() || j < 0 {
        Seq::empty()
    } else {
        cell_run(area, y, x, cells[j], width, pen) + row_from(
            area,
            y,
            cells,
            j + 1,
            x + width,
            width,
            pen,
        )
    }
}

/// The writes of a whole table row at row `y`.
pub open spec fn table_row(area: Rect, y: int, cells: Seq<Seq<char>>, width: int, pen: Pen) -> Seq<
    Paint,
> {
    row_from(area, y, cells, 0, area.x as int, width, pen)
}

/// The writes of data rows `0..n`, each one row below the last.
pub open spec fn data_rows(
    rows: Seq<Seq<Seq<char>>>,
    selected: int,
    theme: Option<Theme>,
    area: Rect,
    width: int,
    n: int,
) -> Seq<Paint>
    decreases n,
{
    if n <= 0 {
        Seq::empty()
    } else {
        data_rows(rows, selected, theme, area, width, n - 1) + table_row(
            area,
            area.y + n,
            rows[n - 1],
            width,
            table_pen(selection_pair(theme, n - 1 == selected)),
        )
    }
}

/// The header's foreground: the theme's secondary, or the terminal's.
pub open spec fn header_fg(theme: Option<Theme>) -> Color {
    match theme {
        Some(t) => t.secondary,
        None => Color::Reset,
    }
}

/// How many data rows a table shows: one per row, up to one less than
/// the area's height.
pub open spec fn data_len(rows_len: int, area: Rect) -> int {
    let room = if area.height >= 1 {
        area.height - 1
    } else {
        0
    };
    if rows_len <= room {
        rows_len
    } else {
        room
    }
}

/// The writes that draw a table: nothing for a zero-height area, else
/// the header row on the area's top row and the data rows below it.
pub open spec fn table_paints(
    headers: Seq<Seq<char>>,
    rows: Seq<Seq<Seq<char>>>,
    selected: int,
    width: int,
    theme: Option<Theme>,
    area: Rect,
) -> Seq<Paint> {
    if area.height == 0 {
        Seq::empty()
    } else {
        table_row(area, area.y as int, headers, width, table_pen((header_fg(theme), Color::Reset)))
            + data_rows(rows, selected, theme, area, width, data_len(rows.len() as int, area))
    }
}

/// Whether a row of `n` cells, each `width` wide, laid out from
/// `area`'s left edge keeps its column positions within a `u16`: every
/// column start up to the one after the last cell, and the area's right
/// edge once any cell is drawn.
pub open spec fn row_in_range(area: Rect, n: int, width: int) -> bool {
    &&& area.x + n * width <= u16::MAX
    &&& (width == 0 || n == 0 || area.x + area.width <= u16::MAX)
}

/// Whether a table's rows stay within `u16` positions in `area`: the
/// header row, each shown data row, and the bottom shown row.
pub open spec fn table_in_range(
    headers: Seq<Seq<char>>,
    rows: Seq<Seq<Seq<char>>>,
    width: int,
    area: Rect,
) -> bool {
    area.height == 0 || {
        &&& row_in_range(area, headers.len() as int, width)
        &&& area.y + data_len(rows.len() as int, area) <= u16::MAX
        &&& forall|k: int|
            0 <= k < data_len(rows.len() as int, area) ==> row_in_range(
                area,
                #[trigger] rows[k].len() as int,
                width,
            )
    }
}

/// Whether a row of `n` cells, each `width` wide, stays in range.
fn row_fits(area: Rect, n: usize, width: u16) -> (r: bool)
    ensures
        r == row_in_range(area, n as int, width as int),
{
    let edge_ok = width == 0 || n == 0 || area.x as u32 + area.width as u32 <= 65535;
    if width == 0 {
        return edge_ok;
    }
    if n > 65535 {
        assert(n * width >= n) by (nonlinear_arith)
            requires
                width >= 1,
                n >= 0,
        ;
        return false;
    }
    assert(n * width <= 65535 * 65535) by (nonlinear_arith)
        requires
            n <= 65535,
            width <= 65535,
    ;
    let span: u64 = n as u64 * width as u64;
    area.x as u64 + span <= 65535 && edge_ok
}

/// The characters of each string.
pub open spec fn chars_of(strings: Seq<String>) -> Seq<Seq<char>> {
    strings.map_values(|s: String| s@)
}

proof fn lemma_row_from_past_edge(
    area: Rect,
    y: int,
    cells: Seq<Seq<char>>,
    j: int,
    x: int,
    width: int,
    pen: Pen,
)
    requires
        x >= area.x + area.width,
        width >= 0,
    ensures
        row_from(area, y, cells, j, x, width, pen) == Seq::<Paint>::empty(),
    decreases cells.len() - j,
{
    if j < cells.len() && j >= 0 {
        lemma_row_from_past_edge(area, y, cells, j + 1, x + width, width, pen);
        assert(cell_run(area, y, x, cells[j], width, pen) =~= Seq::<Paint>::empty());
    }
}

fn push_table_row(
    out: &mut Vec<Paint>,
    area: Rect,
    y: u16,
    cells: &[String],
    width: u16,
    pen: Pen,
)
    requires
        width > 0 && cells@.len() > 0 ==> area.x + area.width <= u16::MAX,
    ensures
        final(out)@ == old(out)@ + table_row(area, y as int, chars_of(cells@), width as int, pen),
{
    let ghost cs_all = chars_of(cells@);
    let ghost start = out@;
    let right: u32 = area.x as u32 + area.width as u32;
    let mut x: u32 = area.x as u32;
    let mut j: usize = 0;
    while j < cells.len() && x < right
        invariant
            width > 0 && cells@.len() > 0 ==> area.x + area.width <= u16::MAX,
            right == area.x + area.width,
            x <= right + width,
            cs_all == chars_of(cells@),
            j <= cells@.len(),
            start + table_row(area, y as int, cs_all, width as int, pen) == out@ + row_from(
                area,
                y as int,
                cs_all,
                j as int,
                x as int,
                width as int,
                pen,
            ),
        decreases cells.len() - j,
    {
        let cs = str_chars(cells[j].as_str());
        let ghost before = out@;
        let mut i: u16 = 0;
        while i < width
            invariant_except_break
                i <= width,
                x < right,
                right == area.x + area.width,
                width > 0 ==> right <= u16::MAX,
                i == 0 || x + i <= right,
                out@ == before + Seq::new(
                    i as nat,
                    |k: int| paint_of(x + k, y as int, char_or_blank(cs@, k), pen),
                ),
            ensures
                out@ == before + cell_run(area, y as int, x as int, cs@, width as int, pen),
            decreases width - i,
        {
            if x + (i as u32) >= right {
                assert(Seq::new(
                    i as nat,
                    |k: int| paint_of(x + k, y as int, char_or_blank(cs@, k), pen),
                ) =~= cell_run(area, y as int, x as int, cs@, width as int, pen));
                break;
            }
            assert(i + 1 == width ==> Seq::new(
                (i + 1) as nat,
                |k: int| paint_of(x + k, y as int, char_or_blank(cs@, k), pen),
            ) =~= cell_run(area, y as int, x as int, cs@, width as int, pen));
            let ch = if (i as usize) < cs.len() {
                cs[i as usize]
            } else {
                ' '
            };
            out.push(paint((x + (i as u32)) as u16, y, ch, pen));
            i = i + 1;
            assert(out@ =~= before + Seq::new(
                i as nat,
                |k: int| paint_of(x + k, y as int, char_or_blank(cs@, k), pen),
            ));
        }
        proof {
            assert(cs@ == cs_all[j as int]);
        }
        x = x + width as u32;
        j = j + 1;
    }
    proof {
        if x >= right {
            lemma_row_from_past_edge(area, y as int, cs_all, j as int, x as int, width as int, pen);
        }
        assert(out@ + Seq::<Paint>::empty() =~= out@);
    }
}

impl<'a> Table<'a> {
    /// The header cells' characters.
    pub closed spec fn header_chars(&self) -> Seq<Seq<char>> {
        chars_of(self.headers@)
    }

    /// Each data row's cells' characters.
    pub closed spec fn row_chars(&self) -> Seq<Seq<Seq<char>>> {
        self.rows@.map_values(|r: Vec<String>| chars_of(r@))
    }

    /// The selected data row.
    pub closed spec fn selected_row(&self) -> int {
        self.selected as int
    }

    /// The width of every column.
    pub closed spec fn column_width(&self) -> int {
        self.col_width as int
    }

    /// The theme, if any.
    pub closed spec fn table_theme(&self) -> Option<Theme> {
        theme_of(self.theme)
    }

    /// Creates a table over `headers`/`rows`, highlighting the data
    /// row at `selected`, each column `col_width` cells wide.
    pub fn new(headers: &'a [String], rows: &'a [Vec<String>], selected: usize, col_width: u16) -> (r:
        Self)
        ensures
            r.header_chars() == chars_of(headers@),
            r.row_chars() == rows@.map_values(|r: Vec<String>| chars_of(r@)),
            r.selected_row() == selected,
            r.column_width() == col_width,
            r.table_theme() is None,
    {
        Table { headers, rows, selected, col_width, theme: None }
    }

    /// Renders the selected row with `theme`'s `accent` on
    /// `background`, unselected rows in `primary`, and the header in
    /// `secondary`. Without it, a fixed black-on-white selection
    /// highlight is used and the header is drawn in `Color::Reset`.
    pub fn theme(self, theme: &'a Theme) -> (r: Self)
        ensures
            r.header_chars() == self.header_chars(),
            r.row_chars() == self.row_chars(),
            r.selected_row() == self.selected_row(),
            r.column_width() == self.column_width(),
            r.table_theme() == Some(*theme),
    {
        Table {
            headers: self.headers,
            rows: self.rows,
            selected: self.selected,
            col_width: self.col_width,
            theme: Some(theme),
        }
    }

    /// Whether `paint` can draw into `area`: every column start, right
    /// edge and row it computes is within a `u16`.
    pub fn fits(&self, area: Rect) -> (r: bool)
        ensures
            r == table_in_range(self.header_chars(), self.row_chars(), self.column_width(), area),
    {
        if area.height == 0 {
            return true;
        }
        if !row_fits(area, self.headers.len(), self.col_width) {
            return false;
        }
        let room: usize = (area.height - 1) as usize;
        let n: usize = if self.rows.len() <= room {
            self.rows.len()
        } else {
            room
        };
        if area.y as usize + n > 65535 {
            return false;
        }
        let ghost rows = self.row_chars();
        let mut k: usize = 0;
        while k < n
            invariant
                n == data_len(rows.len() as int, area),
                rows == self.row_chars(),
                n <= self.rows@.len(),
                k <= n,
                forall|j: int|
                    0 <= j < k ==> row_in_range(area, #[trigger] rows[j].len() as int, self.col_width as int),
            decreases n - k,
        {
            assert(rows[k as int].len() == self.rows@[k as int]@.len());
            if !row_fits(area, self.rows[k].len(), self.col_width) {
                return false;
            }
            k = k + 1;
        }
        true
    }

    /// The writes that draw the header row followed by the data rows,
    /// top to bottom.
    pub fn paint(&self, area: Rect) -> (r: Vec<Paint>)
        requires
            table_in_range(self.header_chars(), self.row_chars(), self.column_width(), area),
        ensures
            r@ == table_paints(
                self.header_chars(),
                self.row_chars(),
                self.selected_row(),
                self.column_width(),
                self.table_theme(),
                area,
            ),
    {
        let mut out: Vec<Paint> = Vec::new();
        if area.height == 0 {
            return out;
        }
        let hfg = match self.theme {
            Some(t) => t.secondary,
            None => Color::Reset,
        };
        let hpen = Pen { fg: hfg, bg: Color::Reset, style: plain(), opaque: true };
        push_table_row(&mut out, area, area.y, self.headers, self.col_width, hpen);
        let ghost header = out@;
        let room: usize = (area.height - 1) as usize;
        let n: usize = if self.rows.len() <= room {
            self.rows.len()
        } else {
            room
        };
        let ghost rows = self.row_chars();
        let mut k: usize = 0;
        while k < n
            invariant
                table_in_range(self.header_chars(), self.row_chars(), self.column_width(), area),
                n == data_len(self.row_chars().len() as int, area),
                area.height >= 1,
                n <= self.rows@.len(),
                n <= area.height - 1,
                rows == self.row_chars(),
                k <= n,
                out@ == header + data_rows(
                    rows,
                    self.selected as int,
                    theme_of(self.theme),
                    area,
                    self.col_width as int,
                    k as int,
                ),
            decreases n - k,
        {
            let (fg, bg) = selection_colors(self.theme, k == self.selected);
            let pen = Pen { fg, bg, style: plain(), opaque: true };
            let ghost before = out@;
            proof {
                assert(rows[k as int].len() == self.rows@[k as int]@.len());
                assert(row_in_range(area, rows[k as int].len() as int, self.col_width as int));
            }
            push_table_row(
                &mut out,
                area,
                area.y + 1 + (k as u16),
                self.rows[k].as_slice(),
                self.col_width,
                pen,
            );
            proof {
                assert(chars_of(self.rows@[k as int]@) == rows[k as int]);
                assert(out@ =~= header + data_rows(
                    rows,
                    self.selected as int,
                    theme_of(self.theme),
                    area,
                    self.col_width as int,
                    k + 1,
                ));
            }
            k = k + 1;
        }
        out
    }
}

} // verus!