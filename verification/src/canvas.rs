//! Sub-cell rendering: a grid of sub-pixels drawn into terminal cells as
//! half blocks (1x2 sub-pixels per cell) or Braille patterns (2x4 per
//! cell). `cell_at` says what one terminal cell shows; `blit_paints`
//! lays the shown cells out as writes into a buffer.
use vstd::prelude::*;
use crate::color::Color;
use crate::snapshot::glyph::braille_row;
use crate::paint::{Paint, Pen, plain, plain_style, paint_of, shown, lemma_shown_concat};

verus! {

/// How a `Canvas` maps sub-pixels onto terminal cells.
#[derive(Clone, Copy, Debug, PartialEq, Eq, Structural)]
pub enum CanvasMode {
    /// One column, two rows of sub-pixels per cell (`▀`/`▄`/`█`).
    HalfBlock,
    /// Two columns, four rows of sub-pixels per cell (Braille dots).
    Braille,
}

/// Sub-pixel columns per cell.
pub open spec fn sub_x(mode: CanvasMode) -> nat {
    match mode {
        CanvasMode::HalfBlock => 1,
        CanvasMode::Braille => 2,
    }
}

/// Sub-pixel rows per cell.
pub open spec fn sub_y(mode: CanvasMode) -> nat {
    match mode {
        CanvasMode::HalfBlock => 2,
        CanvasMode::Braille => 4,
    }
}

/// A grid of optionally-colored sub-pixels, `width`x`height` cells.
pub struct Canvas {
    width: u16,
    height: u16,
    mode: CanvasMode,
    subpixels_x: u16,
    subpixels_y: u16,
    grid: Vec<Option<Color>>,
}

/// The content of a `Canvas`: its size in cells, its mode, and its
/// sub-pixels row-major.
pub struct CanvasView {
    pub width: nat,
    pub height: nat,
    pub mode: CanvasMode,
    pub pixels: Seq<Option<Color>>,
}

/// The code point of `c`.
pub open spec fn code_point(c: char) -> int {
    c as u32 as int
}

/// What one terminal cell of a canvas shows.
#[derive(Clone, Copy, Debug, PartialEq, Eq, Structural)]
pub struct CanvasCell {
    /// The glyph.
    pub symbol: char,
    /// Foreground color.
    pub fg: Color,
    /// Background color.
    pub bg: Color,
}

impl CanvasView {
    /// Sub-pixel columns.
    pub open spec fn grid_width(self) -> nat {
        self.width * sub_x(self.mode)
    }

    /// Sub-pixel rows.
    pub open spec fn grid_height(self) -> nat {
        self.height * sub_y(self.mode)
    }

    /// Both sub-pixel extents fit in a `u16`.
    pub open spec fn fits16(self) -> bool {
        self.grid_width() <= u16::MAX && self.grid_height() <= u16::MAX
    }

    /// `(x, y)` is a sub-pixel of the canvas.
    pub open spec fn in_grid(self, x: int, y: int) -> bool {
        0 <= x < self.grid_width() && 0 <= y < self.grid_height()
    }

    /// The sub-pixel at `(x, y)`.
    pub open spec fn pixel(self, x: int, y: int) -> Option<Color> {
        self.pixels[y * self.grid_width() + x]
    }

    /// The canvas with sub-pixel `(x, y)` set to `p`; unchanged when
    /// `(x, y)` lies outside it.
    pub open spec fn with_pixel(self, x: int, y: int, p: Option<Color>) -> CanvasView {
        if self.in_grid(x, y) {
            CanvasView { pixels: self.pixels.update(y * self.grid_width() + x, p), ..self }
        } else {
            self
        }
    }

    /// The canvas with every point of `pts` colored `color`, in order;
    /// points outside it are skipped.
    pub open spec fn painted(self, pts: Seq<(int, int)>, color: Color) -> CanvasView
        decreases pts.len(),
    {
        if pts.len() == 0 {
            self
        } else {
            self.painted(pts.drop_last(), color).with_pixel(
                pts.last().0,
                pts.last().1,
                Some(color),
            )
        }
    }

    /// The half-block cell for a top and bottom sub-pixel, as (code
    /// point, foreground, background): nothing when both are clear; `▀`
    /// (U+2580) or `▄` (U+2584) in the lit one's color over the reset
    /// background; `█` (U+2588) when both share a color; `▀`
    /// top-over-bottom otherwise.
    pub open spec fn half_block(top: Option<Color>, bottom: Option<Color>) -> Option<(int, Color, Color)> {
        match (top, bottom) {
            (None, None) => None,
            (Some(t), None) => Some((0x2580, t, Color::Reset)),
            (None, Some(b)) => Some((0x2584, b, Color::Reset)),
            (Some(t), Some(b)) => if t == b {
                Some((0x2588, t, t))
            } else {
                Some((0x2580, t, b))
            },
        }
    }

    /// The bit Braille assigns the dot at `(row, col)` of a cell: rows
    /// 0-2 use bits 0-2 (left) and 3-5 (right), row 3 bits 6 and 7.
    pub open spec fn dot_bit(row: int, col: int) -> u8 {
        if row == 3 {
            if col == 0 {
                0x40
            } else {
                0x80
            }
        } else if col == 0 {
            if row == 0 {
                0x01
            } else if row == 1 {
                0x02
            } else {
                0x04
            }
        } else if row == 0 {
            0x08
        } else if row == 1 {
            0x10
        } else {
            0x20
        }
    }

    /// The dot bit of `(row, col)` when that sub-pixel of cell
    /// `(cx, cy)` is lit, else 0.
    pub open spec fn dot(self, cx: int, cy: int, row: int, col: int) -> int {
        if self.pixel(cx * 2 + col, cy * 4 + row) is Some {
            Self::dot_bit(row, col) as int
        } else {
            0
        }
    }

    /// The Braille dot mask of cell `(cx, cy)`: the bits of its lit
    /// sub-pixels.
    pub open spec fn braille_mask(self, cx: int, cy: int) -> int {
        self.dot(cx, cy, 0, 0) + self.dot(cx, cy, 0, 1) + self.dot(cx, cy, 1, 0) + self.dot(
            cx,
            cy,
            1,
            1,
        ) + self.dot(cx, cy, 2, 0) + self.dot(cx, cy, 2, 1) + self.dot(cx, cy, 3, 0) + self.dot(
            cx,
            cy,
            3,
            1,
        )
    }

    /// The color of cell `(cx, cy)` in Braille mode: that of the last
    /// lit sub-pixel, scanning rows top to bottom and each row left to
    /// right.
    pub open spec fn braille_color(self, cx: int, cy: int) -> Option<Color> {
        let p = |row: int, col: int| self.pixel(cx * 2 + col, cy * 4 + row);
        if p(3, 1) is Some {
            p(3, 1)
        } else if p(3, 0) is Some {
            p(3, 0)
        } else if p(2, 1) is Some {
            p(2, 1)
        } else if p(2, 0) is Some {
            p(2, 0)
        } else if p(1, 1) is Some {
            p(1, 1)
        } else if p(1, 0) is Some {
            p(1, 0)
        } else if p(0, 1) is Some {
            p(0, 1)
        } else {
            p(0, 0)
        }
    }

    /// What cell `(cx, cy)` shows, as (code point, foreground,
    /// background): in half-block mode the pair of sub-pixels stacked in
    /// it; in Braille mode, nothing when no dot is lit, else the pattern
    /// U+2800 + mask in the last lit dot's color over the reset
    /// background.
    pub open spec fn cell(self, cx: int, cy: int) -> Option<(int, Color, Color)> {
        match self.mode {
            CanvasMode::HalfBlock => Self::half_block(
                self.pixel(cx, cy * 2),
                self.pixel(cx, cy * 2 + 1),
            ),
            CanvasMode::Braille => if self.braille_mask(cx, cy) == 0 {
                None
            } else {
                Some(
                    (
                        0x2800 + self.braille_mask(cx, cy),
                        self.braille_color(cx, cy).unwrap(),
                        Color::Reset,
                    ),
                )
            },
        }
    }
}

impl View for Canvas {
    type V = CanvasView;

    closed spec fn view(&self) -> CanvasView {
        CanvasView {
            width: self.width as nat,
            height: self.height as nat,
            mode: self.mode,
            pixels: self.grid@,
        }
    }
}

/// Calls `char::from_u32`: the character with code point `cp`, if it is
/// one. Claimed, per its documentation: a result has code point `cp`,
/// and every code point outside the surrogate range U+D800-U+DFFF, up to
/// U+10FFFF, gives one.
#[verifier::external_body]
fn char_from_u32(cp: u32) -> (r: Option<char>)
    ensures
        r matches Some(c) ==> c as u32 == cp,
        (cp < 0xD800 || (0xE000 <= cp && cp <= 0x10FFFF)) ==> r is Some,
{
    char::from_u32(cp)
}

impl Canvas {
    /// The canvas is well formed: its sub-pixel counts are its mode's
    /// and it holds one entry per sub-pixel.
    #[verifier::type_invariant]
    spec fn wf(&self) -> bool {
        &&& self.subpixels_x as nat == sub_x(self.mode)
        &&& self.subpixels_y as nat == sub_y(self.mode)
        &&& self.grid@.len() == self@.grid_width() * self@.grid_height()
    }

    /// A `width`x`height`-cell canvas with every sub-pixel clear.
    pub fn new(width: u16, height: u16, mode: CanvasMode) -> (r: Self)
        requires
            width * sub_x(mode) * (height * sub_y(mode)) <= usize::MAX,
        ensures
            r@.width == width,
            r@.height == height,
            r@.mode == mode,
            r@.pixels == Seq::new(r@.pixels.len(), |i: int| None::<Color>),
    {
        let (subpixels_x, subpixels_y): (u16, u16) = match mode {
            CanvasMode::HalfBlock => (1, 2),
            CanvasMode::Braille => (2, 4),
        };
        let grid_w = width as usize * subpixels_x as usize;
        let grid_h = height as usize * subpixels_y as usize;
        assert(grid_w * grid_h <= usize::MAX);
        let n = grid_w * grid_h;
        let mut grid: Vec<Option<Color>> = Vec::new();
        let mut i: usize = 0;
        while i < n
            invariant
                0 <= i <= n,
                grid@ == Seq::new(i as nat, |k: int| None::<Color>),
            decreases n - i,
        {
            grid.push(None);
            i = i + 1;
            assert(grid@ =~= Seq::new(i as nat, |k: int| None::<Color>));
        }
        let r = Canvas { width, height, mode, subpixels_x, subpixels_y, grid };
        assert(r@.pixels =~= Seq::new(r@.pixels.len(), |i: int| None::<Color>));
        r
    }

    /// Width in cells.
    pub fn width(&self) -> (r: u16)
        ensures
            r == self@.width,
    {
        self.width
    }

    /// Height in cells.
    pub fn height(&self) -> (r: u16)
        ensures
            r == self@.height,
    {
        self.height
    }

    /// Whether the canvas's sub-pixel extents fit in a `u16`, as every
    /// drawing and reading method needs.
    pub fn fits_u16(&self) -> (r: bool)
        ensures
            r == self@.fits16(),
    {
        proof {
            use_type_invariant(&*self);
            assert(self.subpixels_x <= 2 && self.subpixels_y <= 4);
        }
        (self.width as u32) * (self.subpixels_x as u32) <= 65535 && (self.height as u32) * (
        self.subpixels_y as u32) <= 65535
    }

    fn grid_width(&self) -> (r: u16)
        requires
            self@.fits16(),
        ensures
            r == self@.grid_width(),
    {
        proof {
            use_type_invariant(&*self);
        }
        self.width * self.subpixels_x
    }

    fn grid_height(&self) -> (r: u16)
        requires
            self@.fits16(),
        ensures
            r == self@.grid_height(),
    {
        proof {
            use_type_invariant(&*self);
        }
        self.height * self.subpixels_y
    }

    fn put(&mut self, x: u16, y: u16, p: Option<Color>)
        requires
            old(self)@.fits16(),
        ensures
            final(self)@ == old(self)@.with_pixel(x as int, y as int, p),
    {
        proof {
            use_type_invariant(&*self);
        }
        if x < self.grid_width() && y < self.grid_height() {
            let gw = self.grid_width() as usize;
            let n = self.grid.len();
            proof {
                lemma_index_in_grid(x as int, y as int, gw as int, self@.grid_height() as int);
            }
            let idx = y as usize * gw + x as usize;
            self.grid[idx] = p;
        }
    }

    /// Colors sub-pixel `(x, y)`; a no-op outside the grid.
    pub fn set_pixel(&mut self, x: u16, y: u16, color: Color)
        requires
            old(self)@.fits16(),
        ensures
            final(self)@ == old(self)@.with_pixel(x as int, y as int, Some(color)),
    {
        self.put(x, y, Some(color));
    }

    /// Clears sub-pixel `(x, y)`; a no-op outside the grid.
    pub fn clear_pixel(&mut self, x: u16, y: u16)
        requires
            old(self)@.fits16(),
        ensures
            final(self)@ == old(self)@.with_pixel(x as int, y as int, None),
    {
        self.put(x, y, None);
    }


    /// Draws a line of `color` from sub-pixel `(x0, y0)` to `(x1, y1)`
    /// with Bresenham's all-octant walk; points outside the grid are
    /// skipped.
    pub fn line(&mut self, x0: u16, y0: u16, x1: u16, y1: u16, color: Color)
        requires
            old(self)@.fits16(),
        ensures
            final(self)@.width == old(self)@.width,
            final(self)@.height == old(self)@.height,
            final(self)@.mode == old(self)@.mode,
            final(self)@ == old(self)@.painted(
                line_points(x0 as int, y0 as int, x1 as int, y1 as int),
                color,
            ),
    {
        proof {
            use_type_invariant(&*self);
        }
        let ghost start = self@;
        let ghost pts = line_points(x0 as int, y0 as int, x1 as int, y1 as int);
        let mut x: i32 = x0 as i32;
        let mut y: i32 = y0 as i32;
        let tx: i32 = x1 as i32;
        let ty: i32 = y1 as i32;
        let dx: i32 = if tx >= x {
            tx - x
        } else {
            x - tx
        };
        let dy: i32 = if ty >= y {
            -(ty - y)
        } else {
            -(y - ty)
        };
        let sx: i32 = if x < tx {
            1
        } else {
            -1
        };
        let sy: i32 = if y < ty {
            1
        } else {
            -1
        };
        let mut err: i32 = dx + dy;
        let ghost a = dx as int;
        let ghost b = -dy as int;
        let ghost mut i: int = 0;
        let ghost mut j: int = 0;
        let ghost mut done: Seq<(int, int)> = Seq::empty();
        let ghost mut fuel: nat = (a + b + 1) as nat;
        assert(a * (1 + 0) - b * (1 + 0) == a - b) by (nonlinear_arith);
        assert(pts == done + walk(x as int, y as int, err as int, x1 as int, y1 as int, dx as int, dy as int, sx as int, sy as int, fuel));
        loop
            invariant_except_break
                pts == done + walk(x as int, y as int, err as int, x1 as int, y1 as int, dx as int, dy as int, sx as int, sy as int, fuel),
            invariant
                self.wf(),
                self@.fits16(),
                self@.width == start.width,
                self@.height == start.height,
                self@.mode == start.mode,
                self@ == start.painted(done, color),
                tx == x1,
                ty == y1,
                a == abs(x1 - x0),
                b == abs(y1 - y0),
                dx == a,
                dy == -b,
                sx == (if x0 < x1 {
                    1int
                } else {
                    -1int
                }),
                sy == (if y0 < y1 {
                    1int
                } else {
                    -1int
                }),
                walk_state(x0 as int, y0 as int, x1 as int, y1 as int, x as int, y as int, err as int, i, j),
                fuel >= a - i + b - j + 1,
            ensures
                self.wf(),
                self@.width == start.width,
                self@.height == start.height,
                self@.mode == start.mode,
                self@ == start.painted(pts, color),
            decreases a - i + b - j,
        {
            let ghost w = walk(x as int, y as int, err as int, x1 as int, y1 as int, dx as int, dy as int, sx as int, sy as int, fuel);
            assert(0 <= x <= u16::MAX);
            assert(0 <= y <= u16::MAX);
            if x >= 0 && y >= 0 {
                self.set_pixel(x as u16, y as u16, color);
                proof {
                    use_type_invariant(&*self);
                }
            }
            proof {
                let d2 = done.push((x as int, y as int));
                assert(d2.drop_last() =~= done);
                done = d2;
            }
            if x == tx && y == ty {
                assert(w == seq![(x as int, y as int)]);
                assert(pts =~= done);
                break;
            }
            proof {
                lemma_walk_step(x0 as int, y0 as int, x1 as int, y1 as int, x as int, y as int, err as int, i, j);
            }
            let e2 = 2 * err;
            let ghost old_x = x as int;
            let ghost old_y = y as int;
            let ghost old_err = err as int;
            if e2 >= dy {
                err = err + dy;
                x = x + sx;
                proof {
                    i = i + 1;
                }
            }
            if e2 <= dx {
                err = err + dx;
                y = y + sy;
                proof {
                    j = j + 1;
                }
            }
            proof {
                let f2 = (fuel - 1) as nat;
                assert(w == seq![(old_x, old_y)] + walk(x as int, y as int, err as int, x1 as int, y1 as int, dx as int, dy as int, sx as int, sy as int, f2));
                assert(pts =~= done + walk(x as int, y as int, err as int, x1 as int, y1 as int, dx as int, dy as int, sx as int, sy as int, f2));
                fuel = f2;
            }
        }
    }

    /// Draws the outline of the `w`x`h` sub-pixel rectangle at `(x, y)`:
    /// top, bottom, left and right edges, in that order; nothing when
    /// either side is zero.
    pub fn rect(&mut self, x: u16, y: u16, w: u16, h: u16, color: Color)
        requires
            old(self)@.fits16(),
            w > 0 && h > 0 ==> x + w <= u16::MAX && y + h <= u16::MAX,
        ensures
            w == 0 || h == 0 ==> final(self)@ == old(self)@,
            w > 0 && h > 0 ==> final(self)@ == old(self)@.painted(
                rect_points(x as int, y as int, w as int, h as int),
                color,
            ),
    {
        if w == 0 || h == 0 {
            return;
        }
        let ghost start = self@;
        let r = x + w - 1;
        let b = y + h - 1;
        let ghost p1 = line_points(x as int, y as int, r as int, y as int);
        let ghost p2 = line_points(x as int, b as int, r as int, b as int);
        let ghost p3 = line_points(x as int, y as int, x as int, b as int);
        let ghost p4 = line_points(r as int, y as int, r as int, b as int);
        self.line(x, y, r, y, color);
        self.line(x, b, r, b, color);
        self.line(x, y, x, b, color);
        self.line(r, y, r, b, color);
        proof {
            lemma_painted_concat(start, p1, p2, color);
            lemma_painted_concat(start, p1 + p2, p3, color);
            lemma_painted_concat(start, p1 + p2 + p3, p4, color);
        }
    }

    /// Colors every sub-pixel of the `w`x`h` rectangle at `(x, y)` that
    /// lies in the grid.
    pub fn fill_rect(&mut self, x: u16, y: u16, w: u16, h: u16, color: Color)
        requires
            old(self)@.fits16(),
            y + h <= u16::MAX,
            h > 0 ==> x + w <= u16::MAX,
        ensures
            final(self)@.width == old(self)@.width,
            final(self)@.height == old(self)@.height,
            final(self)@.mode == old(self)@.mode,
            final(self)@.pixels.len() == old(self)@.pixels.len(),
            forall|px: int, py: int|
                #![trigger final(self)@.pixel(px, py)]
                old(self)@.in_grid(px, py) ==> final(self)@.pixel(px, py) == if x <= px < x + w && y
                    <= py < y + h {
                    Some(color)
                } else {
                    old(self)@.pixel(px, py)
                },
    {
        proof {
            use_type_invariant(&*self);
        }
        let ghost start = self@;
        let mut row = y;
        while row < y + h
            invariant
                self.wf(),
                self@.fits16(),
                self@.width == start.width,
                self@.height == start.height,
                self@.mode == start.mode,
                self@.pixels.len() == start.pixels.len(),
                y <= row <= y + h,
                h > 0 ==> x + w <= u16::MAX,
                y + h <= u16::MAX,
                forall|px: int, py: int|
                    #![trigger self@.pixel(px, py)]
                    start.in_grid(px, py) ==> self@.pixel(px, py) == if x <= px < x + w && y <= py
                        < row {
                        Some(color)
                    } else {
                        start.pixel(px, py)
                    },
            decreases y + h - row,
        {
            let ghost before_row = self@;
            let mut col = x;
            while col < x + w
                invariant
                    self.wf(),
                    self@.fits16(),
                    self@.width == start.width,
                    self@.height == start.height,
                    self@.mode == start.mode,
                    self@.pixels.len() == start.pixels.len(),
                    y <= row < y + h,
                    x <= col <= x + w,
                    x + w <= u16::MAX,
                    forall|px: int, py: int|
                        #![trigger self@.pixel(px, py)]
                        start.in_grid(px, py) ==> self@.pixel(px, py) == if (x <= px < x + w && y
                            <= py < row) || (py == row && x <= px < col) {
                            Some(color)
                        } else {
                            start.pixel(px, py)
                        },
                decreases x + w - col,
            {
                let ghost before = self@;
                self.set_pixel(col, row, color);
                proof {
                    use_type_invariant(&*self);
                }
                proof {
                    assert forall|px: int, py: int| start.in_grid(px, py) implies #[trigger] self@.pixel(px, py) == if (x <= px < x + w && y <= py < row) || (py == row && x <= px < col + 1) {
                        Some(color)
                    } else {
                        start.pixel(px, py)
                    } by {
                        lemma_pixel_update(before, col as int, row as int, Some(color), px, py);
                        assert(before.pixel(px, py) == if (x <= px < x + w && y <= py < row) || (py == row && x <= px < col) {
                            Some(color)
                        } else {
                            start.pixel(px, py)
                        });
                    }
                }
                col = col + 1;
            }
            row = row + 1;
        }
    }

    fn get(&self, x: u16, y: u16) -> (r: Option<Color>)
        requires
            self@.fits16(),
            self@.in_grid(x as int, y as int),
        ensures
            r == self@.pixel(x as int, y as int),
    {
        proof {
            use_type_invariant(&*self);
        }
        let gw = self.grid_width() as usize;
        let n = self.grid.len();
        proof {
            lemma_index_in_grid(x as int, y as int, gw as int, self@.grid_height() as int);
        }
        self.grid[y as usize * gw + x as usize]
    }

    /// What terminal cell `(cx, cy)` of the canvas shows, if anything.
    pub fn cell_at(&self, cx: u16, cy: u16) -> (r: Option<CanvasCell>)
        requires
            self@.fits16(),
            cx < self@.width,
            cy < self@.height,
        ensures
            r is None <==> self@.cell(cx as int, cy as int) is None,
            r matches Some(c) ==> self@.cell(cx as int, cy as int) == Some(
                (code_point(c.symbol), c.fg, c.bg),
            ),
    {
        proof {
            use_type_invariant(&*self);
        }
        let ghost v = self@;
        match self.mode {
            CanvasMode::HalfBlock => {
                let top = self.get(cx, cy * 2);
                let bottom = self.get(cx, cy * 2 + 1);
                match (top, bottom) {
                    (None, None) => None,
                    (Some(t), None) => Some(CanvasCell { symbol: '▀', fg: t, bg: Color::Reset }),
                    (None, Some(b)) => Some(CanvasCell { symbol: '▄', fg: b, bg: Color::Reset }),
                    (Some(t), Some(b)) => {
                        if t == b {
                            Some(CanvasCell { symbol: '█', fg: t, bg: t })
                        } else {
                            Some(CanvasCell { symbol: '▀', fg: t, bg: b })
                        }
                    },
                }
            },
            CanvasMode::Braille => {
                let mut mask: u8 = 0;
                let mut color: Option<Color> = None;
                let px = cx * 2;
                let py = cy * 4;
                if let Some(c) = self.get(px, py) {
                    mask = mask + 0x01;
                    color = Some(c);
                }
                if let Some(c) = self.get(px + 1, py) {
                    mask = mask + 0x08;
                    color = Some(c);
                }
                if let Some(c) = self.get(px, py + 1) {
                    mask = mask + 0x02;
                    color = Some(c);
                }
                if let Some(c) = self.get(px + 1, py + 1) {
                    mask = mask + 0x10;
                    color = Some(c);
                }
                if let Some(c) = self.get(px, py + 2) {
                    mask = mask + 0x04;
                    color = Some(c);
                }
                if let Some(c) = self.get(px + 1, py + 2) {
                    mask = mask + 0x20;
                    color = Some(c);
                }
                if let Some(c) = self.get(px, py + 3) {
                    mask = mask + 0x40;
                    color = Some(c);
                }
                if let Some(c) = self.get(px + 1, py + 3) {
                    mask = mask + 0x80;
                    color = Some(c);
                }
                assert(mask == v.braille_mask(cx as int, cy as int));
                assert(color == (if mask == 0 {
                    None
                } else {
                    v.braille_color(cx as int, cy as int)
                }));
                if mask == 0 {
                    return None;
                }
                let symbol = char_from_u32(0x2800 + mask as u32).unwrap();
                assert(code_point(symbol) == 0x2800 + mask);
                Some(CanvasCell { symbol, fg: color.unwrap(), bg: Color::Reset })
            },
        }
    }
}


/// `|v|`.
pub open spec fn abs(v: int) -> int {
    if v < 0 {
        -v
    } else {
        v
    }
}

/// The sub-pixels Bresenham's walk visits from `(x, y)` with error term
/// `err` toward `(x1, y1)` (`dx = |x1 - x0|`, `dy = -|y1 - y0|`, `sx`
/// and `sy` the step directions), at most `fuel` of them: the current
/// point, then — unless it is the end — the walk from the next point,
/// which steps along x when `2 err >= dy` and along y when
/// `2 err <= dx`.
pub open spec fn walk(
    x: int,
    y: int,
    err: int,
    x1: int,
    y1: int,
    dx: int,
    dy: int,
    sx: int,
    sy: int,
    fuel: nat,
) -> Seq<(int, int)>
    decreases fuel,
{
    if fuel == 0 {
        Seq::empty()
    } else if x == x1 && y == y1 {
        seq![(x, y)]
    } else {
        let e2 = 2 * err;
        let nx = if e2 >= dy {
            x + sx
        } else {
            x
        };
        let e1 = if e2 >= dy {
            err + dy
        } else {
            err
        };
        let ny = if e2 <= dx {
            y + sy
        } else {
            y
        };
        let e3 = if e2 <= dx {
            e1 + dx
        } else {
            e1
        };
        seq![(x, y)] + walk(nx, ny, e3, x1, y1, dx, dy, sx, sy, (fuel - 1) as nat)
    }
}

/// The sub-pixels of the line from `(x0, y0)` to `(x1, y1)`, in the order
/// Bresenham's all-octant walk visits them.
pub open spec fn line_points(x0: int, y0: int, x1: int, y1: int) -> Seq<(int, int)> {
    let dx = abs(x1 - x0);
    let dy = -abs(y1 - y0);
    let sx = if x0 < x1 {
        1int
    } else {
        -1int
    };
    let sy = if y0 < y1 {
        1int
    } else {
        -1int
    };
    walk(x0, y0, dx + dy, x1, y1, dx, dy, sx, sy, (dx - dy + 1) as nat)
}

/// `q` is at most one step from `p` along each axis.
pub open spec fn king_step(p: (int, int), q: (int, int)) -> bool {
    abs(q.0 - p.0) <= 1 && abs(q.1 - p.1) <= 1
}

/// Each point of `pts` is at most one step along each axis from the one
/// before.
pub open spec fn connected(pts: Seq<(int, int)>) -> bool {
    forall|k: int| 0 <= k < pts.len() - 1 ==> #[trigger] king_step(pts[k], pts[k + 1])
}

/// The walk's state after `i` steps along x and `j` along y: the
/// position and error term follow from the step counts, neither count
/// passes its extent, and the error term stays within `[2 dy, 2 dx]`.
pub open spec fn walk_state(
    x0: int,
    y0: int,
    x1: int,
    y1: int,
    x: int,
    y: int,
    err: int,
    i: int,
    j: int,
) -> bool {
    let a = abs(x1 - x0);
    let b = abs(y1 - y0);
    &&& 0 <= i <= a
    &&& 0 <= j <= b
    &&& x == (if x0 < x1 {
        x0 + i
    } else {
        x0 - i
    })
    &&& y == (if y0 < y1 {
        y0 + j
    } else {
        y0 - j
    })
    &&& err == a * (1 + j) - b * (1 + i)
    &&& -2 * b <= err <= 2 * a
}

proof fn lemma_mul_step(k: int, n: int)
    ensures
        k * (n + 1) == k * n + k,
{
    assert(k * (n + 1) == k * n + k) by (nonlinear_arith);
}

/// One step of the walk keeps its state consistent, makes progress, and
/// never steps past the end along either axis.
proof fn lemma_walk_step(x0: int, y0: int, x1: int, y1: int, x: int, y: int, err: int, i: int, j: int)
    requires
        walk_state(x0, y0, x1, y1, x, y, err, i, j),
        !(x == x1 && y == y1),
    ensures
        ({
            let a = abs(x1 - x0);
            let b = abs(y1 - y0);
            let sx = if x0 < x1 {
                1int
            } else {
                -1int
            };
            let sy = if y0 < y1 {
                1int
            } else {
                -1int
            };
            let e2 = 2 * err;
            let xs = e2 >= -b;
            let ys = e2 <= a;
            let ni = if xs {
                i + 1
            } else {
                i
            };
            let nj = if ys {
                j + 1
            } else {
                j
            };
            let nerr = err + (if xs {
                -b
            } else {
                0
            }) + (if ys {
                a
            } else {
                0
            });
            &&& walk_state(x0, y0, x1, y1, x + (if xs { sx } else { 0 }), y + (if ys { sy } else { 0 }), nerr, ni, nj)
            &&& ni + nj > i + j
        }),
{
    let a = abs(x1 - x0);
    let b = abs(y1 - y0);
    let e2 = 2 * err;
    lemma_mul_step(b, 1 + i);
    lemma_mul_step(a, 1 + j);
    if i == a {
        assert(j < b);
        assert(a * (1 + j) <= a * b) by (nonlinear_arith)
            requires
                0 <= a,
                1 + j <= b,
        ;
        assert(b * (1 + a) == b + a * b) by (nonlinear_arith);
        assert(e2 < -b);
    }
    if j == b {
        assert(i < a);
        assert(b * (1 + i) <= b * a) by (nonlinear_arith)
            requires
                0 <= b,
                1 + i <= a,
        ;
        assert(a * (1 + b) == a + a * b) by (nonlinear_arith);
        assert(e2 > a);
    }
}

/// From any consistent state with enough fuel, the walk ends exactly at
/// `(x1, y1)`, and each point is a king's move from the one before.
proof fn lemma_walk_reaches_end(x0: int, y0: int, x1: int, y1: int, x: int, y: int, err: int, i: int, j: int, fuel: nat)
    requires
        walk_state(x0, y0, x1, y1, x, y, err, i, j),
        fuel >= abs(x1 - x0) - i + abs(y1 - y0) - j + 1,
    ensures
        ({
            let dx = abs(x1 - x0);
            let dy = -abs(y1 - y0);
            let sx = if x0 < x1 {
                1int
            } else {
                -1int
            };
            let sy = if y0 < y1 {
                1int
            } else {
                -1int
            };
            let w = walk(x, y, err, x1, y1, dx, dy, sx, sy, fuel);
            &&& w.len() > 0
            &&& w[0] == (x, y)
            &&& w.last() == (x1, y1)
            &&& connected(w)
        }),
    decreases fuel,
{
    let dx = abs(x1 - x0);
    let dy = -abs(y1 - y0);
    let sx = if x0 < x1 {
        1int
    } else {
        -1int
    };
    let sy = if y0 < y1 {
        1int
    } else {
        -1int
    };
    if !(x == x1 && y == y1) {
        lemma_walk_step(x0, y0, x1, y1, x, y, err, i, j);
        let e2 = 2 * err;
        let xs = e2 >= dy;
        let ys = e2 <= dx;
        let nx = if xs { x + sx } else { x };
        let ny = if ys { y + sy } else { y };
        let e1 = if xs { err + dy } else { err };
        let e3 = if ys { e1 + dx } else { e1 };
        let ni = if xs { i + 1 } else { i };
        let nj = if ys { j + 1 } else { j };
        lemma_walk_reaches_end(x0, y0, x1, y1, nx, ny, e3, ni, nj, (fuel - 1) as nat);
        let rest = walk(nx, ny, e3, x1, y1, dx, dy, sx, sy, (fuel - 1) as nat);
        let w = walk(x, y, err, x1, y1, dx, dy, sx, sy, fuel);
        assert(w == seq![(x, y)] + rest);
        assert forall|k: int| 0 <= k < w.len() - 1 implies #[trigger] king_step(w[k], w[k + 1]) by {
            if k > 0 {
                assert(w[k] == rest[k - 1]);
                assert(w[k + 1] == rest[k]);
                assert(king_step(rest[k - 1], rest[(k - 1) + 1]));
            }
        }
    }
}

/// Law: a line starts at its first endpoint, ends at its second, and
/// every sub-pixel it lights is a king's move (at most one step along
/// each axis) from the one before — it has no gaps.
pub proof fn lemma_line_is_connected(x0: int, y0: int, x1: int, y1: int)
    ensures
        ({
            let pts = line_points(x0, y0, x1, y1);
            &&& pts.len() > 0
            &&& pts[0] == (x0, y0)
            &&& pts.last() == (x1, y1)
            &&& connected(pts)
        }),
{
    let a = abs(x1 - x0);
    let b = abs(y1 - y0);
    assert(a * (1 + 0) - b * (1 + 0) == a - b) by (nonlinear_arith);
    lemma_walk_reaches_end(x0, y0, x1, y1, x0, y0, a - b, 0, 0, (a + b + 1) as nat);
}


/// The sub-pixels of the outline of the `w`x`h` rectangle at `(x, y)`:
/// its top, bottom, left and right edges, in that order.
pub open spec fn rect_points(x: int, y: int, w: int, h: int) -> Seq<(int, int)> {
    line_points(x, y, x + w - 1, y) + line_points(x, y + h - 1, x + w - 1, y + h - 1)
        + line_points(x, y, x, y + h - 1) + line_points(x + w - 1, y, x + w - 1, y + h - 1)
}

proof fn lemma_painted_concat(v: CanvasView, p: Seq<(int, int)>, q: Seq<(int, int)>, color: Color)
    ensures
        v.painted(p + q, color) == v.painted(p, color).painted(q, color),
    decreases q.len(),
{
    if q.len() == 0 {
        assert(p + q =~= p);
    } else {
        lemma_painted_concat(v, p, q.drop_last(), color);
        assert((p + q).drop_last() =~= p + q.drop_last());
        assert((p + q).last() == q.last());
    }
}

/// Reading a sub-pixel after setting one: the set one, or the old value.
proof fn lemma_pixel_update(v: CanvasView, x: int, y: int, p: Option<Color>, px: int, py: int)
    requires
        v.pixels.len() == v.grid_width() * v.grid_height(),
        v.in_grid(px, py),
    ensures
        v.with_pixel(x, y, p).pixel(px, py) == if px == x && py == y {
            p
        } else {
            v.pixel(px, py)
        },
{
    let gw = v.grid_width() as int;
    lemma_index_in_grid(px, py, gw, v.grid_height() as int);
    if v.in_grid(x, y) {
        lemma_index_in_grid(x, y, gw, v.grid_height() as int);
        if !(px == x && py == y) {
            if py * gw + px == y * gw + x {
                vstd::arithmetic::div_mod::lemma_fundamental_div_mod_converse(py * gw + px, gw, py, px);
                vstd::arithmetic::div_mod::lemma_fundamental_div_mod_converse(y * gw + x, gw, y, x);
            }
        }
    }
}


proof fn lemma_mask_bits(d0: u8, d1: u8, d2: u8, d3: u8, d4: u8, d5: u8, d6: u8, d7: u8)
    by (bit_vector)
    requires
        d0 == 0 || d0 == 1,
        d1 == 0 || d1 == 8,
        d2 == 0 || d2 == 2,
        d3 == 0 || d3 == 16,
        d4 == 0 || d4 == 4,
        d5 == 0 || d5 == 32,
        d6 == 0 || d6 == 64,
        d7 == 0 || d7 == 128,
    ensures
        ((d0 + d1 + d2 + d3 + d4 + d5 + d6 + d7) as u8) & 1 != 0 <==> d0 != 0,
        ((d0 + d1 + d2 + d3 + d4 + d5 + d6 + d7) as u8) & 8 != 0 <==> d1 != 0,
        ((d0 + d1 + d2 + d3 + d4 + d5 + d6 + d7) as u8) & 2 != 0 <==> d2 != 0,
        ((d0 + d1 + d2 + d3 + d4 + d5 + d6 + d7) as u8) & 16 != 0 <==> d3 != 0,
        ((d0 + d1 + d2 + d3 + d4 + d5 + d6 + d7) as u8) & 4 != 0 <==> d4 != 0,
        ((d0 + d1 + d2 + d3 + d4 + d5 + d6 + d7) as u8) & 32 != 0 <==> d5 != 0,
        ((d0 + d1 + d2 + d3 + d4 + d5 + d6 + d7) as u8) & 64 != 0 <==> d6 != 0,
        ((d0 + d1 + d2 + d3 + d4 + d5 + d6 + d7) as u8) & 128 != 0 <==> d7 != 0,
{
}

/// Law: the bitmap the snapshot tool draws for a Braille canvas cell
/// lights exactly the dots of that cell's lit sub-pixels — each pixel
/// row pair `r` has its left half (`0x0F`) lit when sub-pixel
/// `(2 cx, 4 cy + r)` is, and its right half (`0xF0`) when
/// `(2 cx + 1, 4 cy + r)` is.
pub proof fn lemma_braille_glyph_matches_canvas(v: CanvasView, cx: int, cy: int, r: int)
    requires
        0 <= r < 4,
    ensures
        braille_row(v.braille_mask(cx, cy) as u8, r) == ((if v.pixel(cx * 2, cy * 4 + r) is Some {
            0x0Fint
        } else {
            0
        }) + (if v.pixel(cx * 2 + 1, cy * 4 + r) is Some {
            0xF0int
        } else {
            0
        })) as u8,
{
    let d0 = v.dot(cx, cy, 0, 0) as u8;
    let d1 = v.dot(cx, cy, 0, 1) as u8;
    let d2 = v.dot(cx, cy, 1, 0) as u8;
    let d3 = v.dot(cx, cy, 1, 1) as u8;
    let d4 = v.dot(cx, cy, 2, 0) as u8;
    let d5 = v.dot(cx, cy, 2, 1) as u8;
    let d6 = v.dot(cx, cy, 3, 0) as u8;
    let d7 = v.dot(cx, cy, 3, 1) as u8;
    lemma_mask_bits(d0, d1, d2, d3, d4, d5, d6, d7);
    assert(v.braille_mask(cx, cy) as u8 == (d0 + d1 + d2 + d3 + d4 + d5 + d6 + d7) as u8);
}

proof fn lemma_index_in_grid(x: int, y: int, gw: int, gh: int)
    requires
        0 <= x < gw,
        0 <= y < gh,
    ensures
        0 <= y * gw + x < gw * gh,
{
    assert(y * gw + x < gw * gh) by (nonlinear_arith)
        requires
            0 <= x < gw,
            0 <= y < gh,
    ;
    assert(0 <= y * gw) by (nonlinear_arith)
        requires
            0 <= y,
            0 <= gw,
    ;
}

/// The character with code point `cp`.
pub open spec fn char_of(cp: int) -> char {
    choose|c: char| code_point(c) == cp
}

/// The write cell (`cx`, `cy`) of a canvas makes when blitted with its
/// top-left at (`ox`, `oy`) into a `bw`x`bh` buffer: the glyph and
/// colors it shows, opaque and plain, at the offset position; nothing
/// when it shows nothing or lands outside the buffer.
pub open spec fn blit_cell(v: CanvasView, ox: int, oy: int, bw: int, bh: int, cx: int, cy: int) -> Option<
    Paint,
> {
    match v.cell(cx, cy) {
        Some((cp, fg, bg)) => if ox + cx < bw && oy + cy < bh {
            Some(
                paint_of(
                    ox + cx,
                    oy + cy,
                    char_of(cp),
                    Pen { fg, bg, style: plain_style(), opaque: true },
                ),
            )
        } else {
            None
        },
        None => None,
    }
}

/// The writes of the first `n` cells of canvas row `cy`, left to right.
pub open spec fn blit_row(v: CanvasView, ox: int, oy: int, bw: int, bh: int, cy: int, n: int) -> Seq<
    Paint,
>
    decreases n,
{
    if n <= 0 {
        Seq::empty()
    } else {
        blit_row(v, ox, oy, bw, bh, cy, n - 1) + match blit_cell(v, ox, oy, bw, bh, n - 1, cy) {
            Some(p) => seq![p],
            None => Seq::empty(),
        }
    }
}

/// The writes of the first `m` canvas rows, top to bottom.
pub open spec fn blit_rows(v: CanvasView, ox: int, oy: int, bw: int, bh: int, m: int) -> Seq<Paint>
    decreases m,
{
    if m <= 0 {
        Seq::empty()
    } else {
        blit_rows(v, ox, oy, bw, bh, m - 1) + blit_row(v, ox, oy, bw, bh, m - 1, v.width as int)
    }
}

/// Every cell the canvas shows lands at a position within a `u16` when
/// blitted at (`ox`, `oy`).
pub open spec fn blit_in_range(v: CanvasView, ox: int, oy: int) -> bool {
    forall|cx: int, cy: int|
        0 <= cx < v.width && 0 <= cy < v.height && #[trigger] v.cell(cx, cy) is Some ==> ox + cx
            <= u16::MAX && oy + cy <= u16::MAX
}

impl Canvas {
    /// Whether `blit_paints` can place every cell the canvas shows at
    /// (`ox`, `oy`) within `u16` positions.
    pub fn blit_fits(&self, ox: u16, oy: u16) -> (r: bool)
        requires
            self@.fits16(),
        ensures
            r == blit_in_range(self@, ox as int, oy as int),
    {
        let mut cy: u16 = 0;
        while cy < self.height
            invariant
                self@.fits16(),
                self.height == self@.height,
                self.width == self@.width,
                cy <= self@.height,
                forall|cx: int, y: int|
                    0 <= cx < self@.width && 0 <= y < cy && #[trigger] self@.cell(cx, y) is Some
                        ==> ox + cx <= u16::MAX && oy + y <= u16::MAX,
            decreases self@.height - cy,
        {
            let mut cx: u16 = 0;
            while cx < self.width
                invariant
                    self@.fits16(),
                    self.height == self@.height,
                    self.width == self@.width,
                    cy < self@.height,
                    cx <= self@.width,
                    forall|x: int, y: int|
                        0 <= x < self@.width && 0 <= y < cy && #[trigger] self@.cell(x, y) is Some
                            ==> ox + x <= u16::MAX && oy + y <= u16::MAX,
                    forall|x: int|
                        0 <= x < cx && #[trigger] self@.cell(x, cy as int) is Some ==> ox + x
                            <= u16::MAX && oy + cy <= u16::MAX,
                decreases self@.width - cx,
            {
                if self.cell_at(cx, cy).is_some() {
                    if ox as u32 + cx as u32 > 65535 || oy as u32 + cy as u32 > 65535 {
                        return false;
                    }
                }
                cx = cx + 1;
            }
            cy = cy + 1;
        }
        true
    }

    /// The writes that draw every cell the canvas shows into a
    /// `buf_width`x`buf_height` buffer with the canvas's top-left at
    /// (`ox`, `oy`): row by row, left to right, skipping cells that show
    /// nothing and cells that land outside the buffer.
    pub fn blit_paints(&self, ox: u16, oy: u16, buf_width: u16, buf_height: u16) -> (r: Vec<Paint>)
        requires
            self@.fits16(),
            blit_in_range(self@, ox as int, oy as int),
        ensures
            r@ == blit_rows(
                self@,
                ox as int,
                oy as int,
                buf_width as int,
                buf_height as int,
                self@.height as int,
            ),
    {
        let ghost v = self@;
        let ghost (gx, gy, bw, bh) = (ox as int, oy as int, buf_width as int, buf_height as int);
        let mut out: Vec<Paint> = Vec::new();
        let mut cy: u16 = 0;
        while cy < self.height
            invariant
                v == self@,
                self@.fits16(),
                blit_in_range(v, gx, gy),
                gx == ox && gy == oy && bw == buf_width && bh == buf_height,
                self.height == v.height,
                self.width == v.width,
                cy <= v.height,
                out@ == blit_rows(v, gx, gy, bw, bh, cy as int),
            decreases v.height - cy,
        {
            let ghost before = out@;
            let mut cx: u16 = 0;
            while cx < self.width
                invariant
                    v == self@,
                    self@.fits16(),
                    blit_in_range(v, gx, gy),
                    gx == ox && gy == oy && bw == buf_width && bh == buf_height,
                    self.height == v.height,
                    self.width == v.width,
                    cy < v.height,
                    cx <= v.width,
                    out@ == before + blit_row(v, gx, gy, bw, bh, cy as int, cx as int),
                decreases v.width - cx,
            {
                let ghost prev = out@;
                match self.cell_at(cx, cy) {
                    Some(c) => {
                        assert(v.cell(cx as int, cy as int) is Some);
                        let bx: u16 = ox + cx;
                        let by: u16 = oy + cy;
                        if bx < buf_width && by < buf_height {
                            proof {
                                assert(code_point(char_of(code_point(c.symbol))) == code_point(
                                    c.symbol,
                                ));
                                assert(char_of(code_point(c.symbol)) == c.symbol);
                            }
                            out.push(
                                Paint {
                                    x: bx,
                                    y: by,
                                    symbol: c.symbol,
                                    fg: c.fg,
                                    bg: c.bg,
                                    style: plain(),
                                    opaque: true,
                                },
                            );
                        }
                    },
                    None => {},
                }
                cx = cx + 1;
                assert(out@ =~= before + blit_row(v, gx, gy, bw, bh, cy as int, cx as int));
            }
            cy = cy + 1;
            assert(out@ =~= blit_rows(v, gx, gy, bw, bh, cy as int));
        }
        out
    }
}

proof fn lemma_blit_row_shown(
    v: CanvasView,
    ox: int,
    oy: int,
    bw: int,
    bh: int,
    cy: int,
    n: int,
    x: int,
    y: int,
)
    requires
        blit_in_range(v, ox, oy),
        0 <= ox <= u16::MAX,
        0 <= oy <= u16::MAX,
        0 <= cy < v.height,
        0 <= n <= v.width,
        0 <= x <= u16::MAX,
        0 <= y <= u16::MAX,
    ensures
        shown(blit_row(v, ox, oy, bw, bh, cy, n), x, y) == (if y == oy + cy && ox <= x < ox + n {
            blit_cell(v, ox, oy, bw, bh, x - ox, cy)
        } else {
            None
        }),
    decreases n,
{
    if n > 0 {
        let prev = blit_row(v, ox, oy, bw, bh, cy, n - 1);
        lemma_blit_row_shown(v, ox, oy, bw, bh, cy, n - 1, x, y);
        match blit_cell(v, ox, oy, bw, bh, n - 1, cy) {
            Some(p) => {
                assert(v.cell(n - 1, cy) is Some);
                assert(ox + (n - 1) <= u16::MAX && oy + cy <= u16::MAX);
                assert(blit_row(v, ox, oy, bw, bh, cy, n) == prev + seq![p]);
                assert(p.x == ox + n - 1);
                assert(p.y == oy + cy);
                lemma_shown_concat(prev, seq![p], x, y);
                assert(seq![p].drop_last() =~= Seq::<Paint>::empty());
                assert(shown(seq![p], x, y) == (if p.x == x && p.y == y {
                    Some(p)
                } else {
                    None
                })) by {
                    reveal_with_fuel(shown, 2);
                }
            },
            None => {
                assert(blit_row(v, ox, oy, bw, bh, cy, n) =~= prev);
                if y == oy + cy && x == ox + n - 1 {
                    assert(blit_cell(v, ox, oy, bw, bh, x - ox, cy) is None);
                }
            },
        }
    }
}

proof fn lemma_blit_rows_shown(v: CanvasView, ox: int, oy: int, bw: int, bh: int, m: int, x: int, y: int)
    requires
        blit_in_range(v, ox, oy),
        0 <= ox <= u16::MAX,
        0 <= oy <= u16::MAX,
        0 <= m <= v.height,
        0 <= x <= u16::MAX,
        0 <= y <= u16::MAX,
    ensures
        shown(blit_rows(v, ox, oy, bw, bh, m), x, y) == (if oy <= y < oy + m && ox <= x < ox
            + v.width {
            blit_cell(v, ox, oy, bw, bh, x - ox, y - oy)
        } else {
            None
        }),
    decreases m,
{
    if m > 0 {
        lemma_blit_rows_shown(v, ox, oy, bw, bh, m - 1, x, y);
        lemma_blit_row_shown(v, ox, oy, bw, bh, m - 1, v.width as int, x, y);
        lemma_shown_concat(
            blit_rows(v, ox, oy, bw, bh, m - 1),
            blit_row(v, ox, oy, bw, bh, m - 1, v.width as int),
            x,
            y,
        );
    }
}

/// Law: once a canvas is blitted at (`ox`, `oy`) into a `bw`x`bh`
/// buffer, each buffer cell over the canvas shows what the canvas cell
/// under it shows (its half-block or Braille glyph and colors), unless
/// that canvas cell shows nothing or the position is outside the buffer;
/// every other buffer cell is untouched.
pub proof fn lemma_blit_shows(v: CanvasView, ox: int, oy: int, bw: int, bh: int, x: int, y: int)
    requires
        blit_in_range(v, ox, oy),
        0 <= ox <= u16::MAX,
        0 <= oy <= u16::MAX,
        0 <= x <= u16::MAX,
        0 <= y <= u16::MAX,
    ensures
        shown(blit_rows(v, ox, oy, bw, bh, v.height as int), x, y) == (if ox <= x < ox + v.width
            && oy <= y < oy + v.height {
            blit_cell(v, ox, oy, bw, bh, x - ox, y - oy)
        } else {
            None
        }),
{
    lemma_blit_rows_shown(v, ox, oy, bw, bh, v.height as int, x, y);
}

} // verus!
