//! Circular item-select dial: items placed evenly around an ellipse,
//! the selected one highlighted. Where each item lands is trigonometry
//! the caller does; this module holds the dial's data, the clipping
//! test every placed cell goes through, and how a label is laid out
//! from the point it is anchored at.
use vstd::prelude::*;
use crate::color::Color;
use crate::layout::Rect;
use crate::paint::{Paint, Pen, plain, plain_style, paint_of};
use crate::text::str_chars;

verus! {

/// A ring of selectable items arranged around an ellipse.
pub struct Dial<'a> {
    items: &'a [String],
    selected: usize,
}

/// Whether (`x`, `y`) lies in `area`: inclusive of the left and top
/// edges, exclusive of the right and bottom ones.
pub open spec fn spec_in_area(x: int, y: int, area: Rect) -> bool {
    area.x <= x < area.x + area.width && area.y <= y < area.y + area.height
}

/// Whether the signed point (`x`, `y`) lies in `area`.
pub fn in_area(x: i32, y: i32, area: Rect) -> (r: bool)
    ensures
        r == spec_in_area(x as int, y as int, area),
{
    x >= area.x as i32 && x < area.x as i32 + area.width as i32 && y >= area.y as i32 && y
        < area.y as i32 + area.height as i32
}

/// The pen of an item's label: black on white when selected, the
/// terminal's colors otherwise; plain and see-through.
pub open spec fn label_pen(selected: bool) -> Pen {
    Pen {
        fg: if selected {
            Color::Black
        } else {
            Color::Reset
        },
        bg: if selected {
            Color::White
        } else {
            Color::Reset
        },
        style: plain_style(),
        opaque: false,
    }
}

/// The column of character `offset` of a `len`-character label anchored
/// at column `px`: reading rightward from the anchor on the dial's right
/// half (`right`), ending at the anchor on its left half.
pub open spec fn label_col(px: int, len: int, offset: int, right: bool) -> int {
    if right {
        px + offset
    } else {
        px - (len - 1 - offset)
    }
}

/// The writes of the first `n` characters of label `cs` anchored at
/// (`px`, `py`): each character whose cell lies in `area`, in order.
pub open spec fn label_paints(
    cs: Seq<char>,
    px: int,
    py: int,
    right: bool,
    pen: Pen,
    area: Rect,
    n: int,
) -> Seq<Paint>
    decreases n,
{
    if n <= 0 {
        Seq::empty()
    } else {
        let x = label_col(px, cs.len() as int, n - 1, right);
        label_paints(cs, px, py, right, pen, area, n - 1) + if spec_in_area(x, py, area) {
            seq![paint_of(x, py, cs[n - 1], pen)]
        } else {
            Seq::empty()
        }
    }
}

/// The writes of an item's label anchored at (`px`, `py`): its
/// characters left to right, reading away from the anchor on the right
/// half of the dial and toward it on the left half, each drawn only
/// where it lands in `area`.
pub fn dial_label(label: &str, px: i32, py: i32, right: bool, selected: bool, area: Rect) -> (r: Vec<
    Paint,
>)
    requires
        label@.len() <= i32::MAX,
        label@.len() > 0 ==> i32::MIN <= label_col(px as int, label@.len() as int, 0, right),
        label@.len() > 0 ==> label_col(
            px as int,
            label@.len() as int,
            label@.len() - 1,
            right,
        ) <= i32::MAX,
    ensures
        r@ == label_paints(
            label@,
            px as int,
            py as int,
            right,
            label_pen(selected),
            area,
            label@.len() as int,
        ),
{
    let cs = str_chars(label);
    let pen = Pen {
        fg: if selected {
            Color::Black
        } else {
            Color::Reset
        },
        bg: if selected {
            Color::White
        } else {
            Color::Reset
        },
        style: plain(),
        opaque: false,
    };
    let len: i64 = cs.len() as i64;
    let mut out: Vec<Paint> = Vec::new();
    let mut i: usize = 0;
    while i < cs.len()
        invariant
            cs@ == label@,
            len == cs@.len(),
            len <= i32::MAX,
            len > 0 ==> i32::MIN <= label_col(px as int, len as int, 0, right),
            len > 0 ==> label_col(px as int, len as int, len - 1, right) <= i32::MAX,
            pen == label_pen(selected),
            i <= cs@.len(),
            out@ == label_paints(cs@, px as int, py as int, right, pen, area, i as int),
        decreases cs.len() - i,
    {
        let x: i64 = if right {
            px as i64 + i as i64
        } else {
            px as i64 - (len - 1 - i as i64)
        };
        let x32: i32 = x as i32;
        if in_area(x32, py, area) {
            out.push(Paint {
                x: x32 as u16,
                y: py as u16,
                symbol: cs[i],
                fg: pen.fg,
                bg: pen.bg,
                style: pen.style,
                opaque: pen.opaque,
            });
        }
        i = i + 1;
    }
    out
}

impl<'a> Dial<'a> {
    /// The items' characters.
    pub closed spec fn item_chars(&self) -> Seq<Seq<char>> {
        self.items@.map_values(|s: String| s@)
    }

    /// The highlighted item.
    pub closed spec fn selected_item(&self) -> int {
        self.selected as int
    }

    /// Creates a dial over `items`, highlighting the one at `selected`.
    pub fn new(items: &'a [String], selected: usize) -> (r: Self)
        ensures
            r.item_chars() == items@.map_values(|s: String| s@),
            r.selected_item() == selected,
    {
        Dial { items, selected }
    }

    /// The items, in order around the dial.
    pub fn items(&self) -> (r: &'a [String])
        ensures
            r@.map_values(|s: String| s@) == self.item_chars(),
    {
        self.items
    }

    /// The highlighted item's index.
    pub fn selected(&self) -> (r: usize)
        ensures
            r == self.selected_item(),
    {
        self.selected
    }
}

} // verus!
