//! Scrollable selectable list, one item per row.
use vstd::prelude::*;
use crate::color::Color;
use crate::layout::Rect;
use crate::paint::{
    Paint, Pen, plain, plain_style, paint, paint_of, push_row, row_paints, shown, lemma_shown_concat,
    lemma_row_shown,
};
use crate::text::str_chars;
use crate::theme::Theme;
use crate::widgets::selection::{selection_colors, selection_pair, theme_of};
use crate::widgets::table::char_or_blank;

verus! {

/// A vertical list of items with one highlighted selection.
pub struct List<'a> {
    items: &'a [String],
    selected: usize,
    theme: Option<&'a Theme>,
}

/// The pen of a list row in the colors `pair`.
pub open spec fn row_pen(pair: (Color, Color)) -> Pen {
    Pen { fg: pair.0, bg: pair.1, style: plain_style(), opaque: true }
}

/// The smaller of `a` and `b`.
pub open spec fn min_of(a: int, b: int) -> int {
    if a <= b {
        a
    } else {
        b
    }
}

/// The writes of one list row: the row's full width in blanks, then the
/// item's characters over them, cut at the width.
pub open spec fn list_row(area: Rect, y: int, item: Seq<char>, pen: Pen) -> Seq<Paint> {
    Seq::new(area.width as nat, |i: int| paint_of(area.x + i, y, ' ', pen)) + row_paints(
        area.x as int,
        y,
        item,
        min_of(item.len() as int, area.width as int),
        pen,
    )
}

/// The writes of the first `n` rows of a list, top to bottom.
pub open spec fn list_rows(
    items: Seq<Seq<char>>,
    selected: int,
    theme: Option<Theme>,
    area: Rect,
    n: int,
) -> Seq<Paint>
    decreases n,
{
    if n <= 0 {
        Seq::empty()
    } else {
        list_rows(items, selected, theme, area, n - 1) + list_row(
            area,
            area.y + n - 1,
            items[n - 1],
            row_pen(selection_pair(theme, n - 1 == selected)),
        )
    }
}

/// What cell (`x`, `y`) shows once the first `n` rows of a list are
/// drawn into `area`: on row `r` of those, within the area's width, the
/// item's character at that column (a blank past its end) in the row's
/// colors — the selection's for the selected row; `None` elsewhere.
pub open spec fn list_cell(
    items: Seq<Seq<char>>,
    selected: int,
    theme: Option<Theme>,
    area: Rect,
    n: int,
    x: int,
    y: int,
) -> Option<Paint> {
    let r = y - area.y;
    if 0 <= r < n && area.x <= x < area.x + area.width {
        Some(
            paint_of(
                x,
                y,
                char_or_blank(items[r], x - area.x),
                row_pen(selection_pair(theme, r == selected)),
            ),
        )
    } else {
        None
    }
}

proof fn lemma_list_row_shown(area: Rect, y0: int, item: Seq<char>, pen: Pen, x: int, y: int)
    requires
        area.x + area.width <= u16::MAX + 1,
        0 <= y0 <= u16::MAX,
        0 <= x <= u16::MAX,
        0 <= y <= u16::MAX,
    ensures
        shown(list_row(area, y0, item, pen), x, y) == (if y == y0 && area.x <= x < area.x
            + area.width {
            Some(paint_of(x, y, char_or_blank(item, x - area.x), pen))
        } else {
            None
        }),
{
    let w = area.width as int;
    let blanks = Seq::new(w as nat, |i: int| ' ');
    let m = min_of(item.len() as int, w);
    assert(Seq::new(w as nat, |i: int| paint_of(area.x + i, y0, ' ', pen)) =~= row_paints(
        area.x as int,
        y0,
        blanks,
        w,
        pen,
    ));
    lemma_shown_concat(
        row_paints(area.x as int, y0, blanks, w, pen),
        row_paints(area.x as int, y0, item, m, pen),
        x,
        y,
    );
    lemma_row_shown(area.x as int, y0, blanks, w, pen, x, y);
    lemma_row_shown(area.x as int, y0, item, m, pen, x, y);
}

/// Law: once a list's first `n` rows are drawn, each cell of row `r`
/// within the area's width shows the item's character there, or a blank
/// past its end, in that row's colors; every other cell is untouched.
pub proof fn lemma_list_shows(
    items: Seq<Seq<char>>,
    selected: int,
    theme: Option<Theme>,
    area: Rect,
    n: int,
    x: int,
    y: int,
)
    requires
        0 <= n <= items.len(),
        area.x + area.width <= u16::MAX + 1,
        area.y + n <= u16::MAX + 1,
        0 <= x <= u16::MAX,
        0 <= y <= u16::MAX,
    ensures
        shown(list_rows(items, selected, theme, area, n), x, y) == list_cell(
            items,
            selected,
            theme,
            area,
            n,
            x,
            y,
        ),
    decreases n,
{
    if n > 0 {
        let pen = row_pen(selection_pair(theme, n - 1 == selected));
        lemma_list_shows(items, selected, theme, area, n - 1, x, y);
        lemma_shown_concat(
            list_rows(items, selected, theme, area, n - 1),
            list_row(area, area.y + n - 1, items[n - 1], pen),
            x,
            y,
        );
        lemma_list_row_shown(area, area.y + n - 1, items[n - 1], pen, x, y);
    }
}

/// A list drawn into a zero-width area writes nothing.
proof fn lemma_no_width_no_rows(
    items: Seq<Seq<char>>,
    selected: int,
    theme: Option<Theme>,
    area: Rect,
    n: int,
)
    requires
        area.width == 0,
    ensures
        list_rows(items, selected, theme, area, n) =~= Seq::<Paint>::empty(),
    decreases n,
{
    if n > 0 {
        lemma_no_width_no_rows(items, selected, theme, area, n - 1);
    }
}

/// How many rows a list shows: one per item, up to the area's height.
pub open spec fn list_len(items: Seq<Seq<char>>, area: Rect) -> int {
    min_of(items.len() as int, area.height as int)
}

impl<'a> List<'a> {
    /// The items' characters.
    pub closed spec fn item_chars(&self) -> Seq<Seq<char>> {
        self.items@.map_values(|s: String| s@)
    }

    /// The selected row.
    pub closed spec fn selected_row(&self) -> int {
        self.selected as int
    }

    /// The theme, if any.
    pub closed spec fn list_theme(&self) -> Option<Theme> {
        theme_of(self.theme)
    }

    /// Creates a list over `items`, highlighting the one at `selected`.
    pub fn new(items: &'a [String], selected: usize) -> (r: Self)
        ensures
            r.item_chars() == items@.map_values(|s: String| s@),
            r.selected_row() == selected,
            r.list_theme() is None,
    {
        List { items, selected, theme: None }
    }

    /// Renders selection with `theme`'s `accent` on `background`, and
    /// unselected rows in `primary`. Without it, a fixed black-on-white
    /// highlight is used.
    pub fn theme(self, theme: &'a Theme) -> (r: Self)
        ensures
            r.item_chars() == self.item_chars(),
            r.selected_row() == self.selected_row(),
            r.list_theme() == Some(*theme),
    {
        List { items: self.items, selected: self.selected, theme: Some(theme) }
    }

    /// Whether `paint` can draw into `area`: every row and column it
    /// writes is within a `u16`.
    pub fn fits(&self, area: Rect) -> (r: bool)
        ensures
            r == (area.width == 0 || list_len(self.item_chars(), area) == 0 || (area.x + area.width
                <= u16::MAX + 1 && area.y + list_len(self.item_chars(), area) <= u16::MAX + 1)),
    {
        let n: usize = if self.items.len() <= area.height as usize {
            self.items.len()
        } else {
            area.height as usize
        };
        area.width == 0 || n == 0 || (area.x as usize + area.width as usize <= 65536
            && area.y as usize + n <= 65536)
    }

    /// The writes that draw up to `area.height` items as rows, top to
    /// bottom, each row first blanked across the area's width.
    pub fn paint(&self, area: Rect) -> (r: Vec<Paint>)
        requires
            area.width == 0 || list_len(self.item_chars(), area) == 0 || (area.x + area.width
                <= u16::MAX + 1 && area.y + list_len(self.item_chars(), area) <= u16::MAX + 1),
        ensures
            r@ == list_rows(
                self.item_chars(),
                self.selected_row(),
                self.list_theme(),
                area,
                list_len(self.item_chars(), area),
            ),
    {
        let mut out: Vec<Paint> = Vec::new();
        if area.width == 0 {
            proof {
                lemma_no_width_no_rows(
                    self.item_chars(),
                    self.selected as int,
                    theme_of(self.theme),
                    area,
                    list_len(self.item_chars(), area),
                );
            }
            return out;
        }
        let n: usize = if self.items.len() <= area.height as usize {
            self.items.len()
        } else {
            area.height as usize
        };
        let ghost items = self.item_chars();
        let mut row: usize = 0;
        while row < n
            invariant
                n > 0 ==> area.x + area.width <= u16::MAX + 1 && area.y + n <= u16::MAX + 1,
                n <= self.items@.len(),
                n <= area.height,
                n == list_len(items, area),
                items == self.item_chars(),
                row <= n,
                out@ == list_rows(items, self.selected as int, theme_of(self.theme), area, row as int),
            decreases n - row,
        {
            let (fg, bg) = selection_colors(self.theme, row == self.selected);
            let pen = Pen { fg, bg, style: plain(), opaque: true };
            let y: u16 = area.y + (row as u16);
            let ghost before = out@;
            let mut x: u16 = 0;
            while x < area.width
                invariant
                    area.x + area.width <= u16::MAX + 1,
                    x <= area.width,
                    out@ == before + Seq::new(
                        x as nat,
                        |i: int| paint_of(area.x + i, y as int, ' ', pen),
                    ),
                decreases area.width - x,
            {
                out.push(paint(area.x + x, y, ' ', pen));
                x = x + 1;
                assert(out@ =~= before + Seq::new(
                    x as nat,
                    |i: int| paint_of(area.x + i, y as int, ' ', pen),
                ));
            }
            let cs = str_chars(self.items[row].as_str());
            let m: usize = if cs.len() <= area.width as usize {
                cs.len()
            } else {
                area.width as usize
            };
            push_row(&mut out, area.x, y, &cs, m, pen);
            proof {
                assert(cs@ == items[row as int]);
                assert(out@ =~= before + list_row(area, y as int, items[row as int], pen));
            }
            row = row + 1;
        }
        out
    }
}

} // verus!
