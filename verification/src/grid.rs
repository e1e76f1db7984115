//! A flat, row-major grid of cells: the storage of a render target,
//! with bounds-checked-by-contract access, clipped copying of one grid
//! into another, and whole-grid shifting.
use vstd::prelude::*;

verus! {

/// A `width` x `height` grid of `T`s, stored row by row.
#[derive(Debug)]
pub struct Grid<T> {
    width: u16,
    height: u16,
    cells: Vec<T>,
}

/// The content of a grid: its size and its cells row by row.
pub struct GridView<T> {
    pub width: nat,
    pub height: nat,
    pub cells: Seq<T>,
}

impl<T> GridView<T> {
    /// `(x, y)` is a cell of the grid.
    pub open spec fn contains(self, x: int, y: int) -> bool {
        0 <= x < self.width && 0 <= y < self.height
    }

    /// The cell at `(x, y)`.
    pub open spec fn at(self, x: int, y: int) -> T {
        self.cells[y * self.width + x]
    }

    /// The grid with the cell at `(x, y)` replaced by `v`.
    pub open spec fn with(self, x: int, y: int, v: T) -> GridView<T> {
        GridView { cells: self.cells.update(y * self.width + x, v), ..self }
    }
}

impl<T> View for Grid<T> {
    type V = GridView<T>;

    closed spec fn view(&self) -> GridView<T> {
        GridView { width: self.width as nat, height: self.height as nat, cells: self.cells@ }
    }
}

proof fn lemma_index(x: int, y: int, w: int, h: int)
    requires
        0 <= x < w,
        0 <= y < h,
    ensures
        0 <= y * w + x < w * h,
{
    assert(y * w + x < w * h) by (nonlinear_arith)
        requires
            0 <= x < w,
            0 <= y < h,
    ;
    assert(0 <= y * w) by (nonlinear_arith)
        requires
            0 <= y,
            0 <= w,
    ;
}

proof fn lemma_index_distinct(x1: int, y1: int, x2: int, y2: int, w: int)
    requires
        0 <= x1 < w,
        0 <= x2 < w,
        0 <= y1,
        0 <= y2,
        (x1, y1) != (x2, y2),
    ensures
        y1 * w + x1 != y2 * w + x2,
{
    if y1 == y2 {
    } else if y1 < y2 {
        assert(y1 * w + x1 < y2 * w + x2) by (nonlinear_arith)
            requires
                0 <= x1 < w,
                0 <= x2,
                y1 < y2,
        ;
    } else {
        assert(y2 * w + x2 < y1 * w + x1) by (nonlinear_arith)
            requires
                0 <= x2 < w,
                0 <= x1,
                y2 < y1,
        ;
    }
}

/// The content of a grid filled with `fill`.
pub open spec fn filled<T>(width: nat, height: nat, fill: T) -> GridView<T> {
    GridView { width, height, cells: Seq::new(width * height, |i: int| fill) }
}

/// The cell at `(x, y)` of `dest` once `src` is copied in with its
/// top-left corner at `(ox, oy)`: `src`'s cell where it lands, `dest`'s
/// own elsewhere.
pub open spec fn blitted_at<T>(dest: GridView<T>, src: GridView<T>, ox: int, oy: int, x: int, y: int) -> T {
    if ox <= x < ox + src.width && oy <= y < oy + src.height {
        src.at(x - ox, y - oy)
    } else {
        dest.at(x, y)
    }
}

/// The cell at `(x, y)` of `g` shifted by `(dx, dy)`: the cell `(dx,
/// dy)` up and to the left of it, or `blank` where that lies off the
/// grid.
pub open spec fn shifted_at<T>(g: GridView<T>, dx: int, dy: int, blank: T, x: int, y: int) -> T {
    if g.contains(x - dx, y - dy) {
        g.at(x - dx, y - dy)
    } else {
        blank
    }
}

impl<T> Grid<T> {
    #[verifier::type_invariant]
    spec fn sized(&self) -> bool {
        self.cells@.len() == self.width * self.height
    }

    /// A `width` x `height` grid with every cell `fill`.
    pub fn new(width: u16, height: u16, fill: T) -> (r: Self)
        where
            T: Copy,
        requires
            width * height <= usize::MAX,
        ensures
            r@ == filled(width as nat, height as nat, fill),
    {
        let n = width as usize * height as usize;
        let mut cells: Vec<T> = Vec::new();
        let mut i: usize = 0;
        while i < n
            invariant
                n == width * height,
                i <= n,
                cells@ == Seq::new(i as nat, |k: int| fill),
            decreases n - i,
        {
            cells.push(fill);
            i = i + 1;
            assert(cells@ =~= Seq::new(i as nat, |k: int| fill));
        }
        Grid { width, height, cells }
    }

    /// Width in cells.
    pub fn width(&self) -> (r: u16)
        ensures
            r == self@.width,
    {
        self.width
    }

    /// Height in cells.
    pub fn height(&self) -> (r: u16)
        ensures
            r == self@.height,
    {
        self.height
    }

    /// The cell at `(x, y)`.
    pub fn get(&self, x: u16, y: u16) -> (r: &T)
        requires
            self@.contains(x as int, y as int),
        ensures
            *r == self@.at(x as int, y as int),
    {
        let n: usize = self.cells.len();
        proof {
            use_type_invariant(self);
            lemma_index(x as int, y as int, self.width as int, self.height as int);
        }
        &self.cells[y as usize * self.width as usize + x as usize]
    }

    /// Overwrites the cell at `(x, y)`.
    pub fn set(&mut self, x: u16, y: u16, v: T)
        requires
            old(self)@.contains(x as int, y as int),
        ensures
            final(self)@ == old(self)@.with(x as int, y as int, v),
    {
        let n: usize = self.cells.len();
        proof {
            use_type_invariant(&*self);
            lemma_index(x as int, y as int, self.width as int, self.height as int);
        }
        let i = y as usize * self.width as usize + x as usize;
        self.cells[i] = v;
    }

    /// Copies this grid into `dest` with its top-left corner at
    /// `(x, y)`, clipped at `dest`'s edges (and at the coordinate
    /// range): every cell of `dest` that it lands on takes its cell, the
    /// rest keep theirs.
    pub fn blit(&self, dest: &mut Grid<T>, x: u16, y: u16)
        where
            T: Copy,
        ensures
            final(dest)@.width == old(dest)@.width,
            final(dest)@.height == old(dest)@.height,
            final(dest)@.cells.len() == old(dest)@.cells.len(),
            forall|px: int, py: int|
                #![trigger final(dest)@.at(px, py)]
                old(dest)@.contains(px, py) ==> final(dest)@.at(px, py) == blitted_at(
                    old(dest)@,
                    self@,
                    x as int,
                    y as int,
                    px,
                    py,
                ),
    {
        proof {
            use_type_invariant(self);
            use_type_invariant(&*dest);
        }
        let ghost start = dest@;
        let rows = self.height;
        let cols = self.width;
        let mut row: u16 = 0;
        while row < rows
            invariant_except_break
                row <= rows,
            invariant
                rows == self@.height,
                cols == self@.width,
                dest@.width == start.width,
                dest@.height == start.height,
                dest@.cells.len() == start.cells.len(),
                dest@.cells.len() == dest@.width * dest@.height,
                forall|px: int, py: int|
                    #![trigger dest@.at(px, py)]
                    start.contains(px, py) ==> dest@.at(px, py) == if x <= px < x + cols && y <= py
                        < y + row {
                        self@.at(px - x, py - y)
                    } else {
                        start.at(px, py)
                    },
            ensures
                dest@.width == start.width,
                dest@.height == start.height,
                dest@.cells.len() == start.cells.len(),
                forall|px: int, py: int|
                    #![trigger dest@.at(px, py)]
                    start.contains(px, py) ==> dest@.at(px, py) == blitted_at(
                        start,
                        self@,
                        x as int,
                        y as int,
                        px,
                        py,
                    ),
            decreases rows - row,
        {
            let dy = match y.checked_add(row) {
                Some(v) => v,
                None => {
                    break;
                },
            };
            if dy >= dest.height {
                break;
            }
            let ghost before_row = dest@;
            let mut col: u16 = 0;
            while col < cols
                invariant_except_break
                    col <= cols,
                invariant
                    rows == self@.height,
                    cols == self@.width,
                    row < rows,
                    dy == y + row,
                    dy < start.height,
                    dest@.width == start.width,
                    dest@.height == start.height,
                    dest@.cells.len() == start.cells.len(),
                    dest@.cells.len() == dest@.width * dest@.height,
                    forall|px: int, py: int|
                        #![trigger dest@.at(px, py)]
                        start.contains(px, py) ==> dest@.at(px, py) == if (x <= px < x + cols && y
                            <= py < y + row) || (py == dy && x <= px < x + col) {
                            self@.at(px - x, py - y)
                        } else {
                            start.at(px, py)
                        },
                ensures
                    dest@.width == start.width,
                    dest@.height == start.height,
                    dest@.cells.len() == start.cells.len(),
                    dest@.cells.len() == dest@.width * dest@.height,
                    forall|px: int, py: int|
                        #![trigger dest@.at(px, py)]
                        start.contains(px, py) ==> dest@.at(px, py) == if x <= px < x + cols && y
                            <= py < y + row + 1 {
                            self@.at(px - x, py - y)
                        } else {
                            start.at(px, py)
                        },
                decreases cols - col,
            {
                let dx = match x.checked_add(col) {
                    Some(v) => v,
                    None => {
                        break;
                    },
                };
                if dx >= dest.width {
                    break;
                }
                let v = *self.get(col, row);
                let ghost before = dest@;
                dest.set(dx, dy, v);
                proof {
                    use_type_invariant(&*dest);
                    assert forall|px: int, py: int| start.contains(px, py) implies #[trigger] dest@.at(
                        px,
                        py,
                    ) == if (x <= px < x + cols && y <= py < y + row) || (py == dy && x <= px < x
                        + col + 1) {
                        self@.at(px - x, py - y)
                    } else {
                        start.at(px, py)
                    } by {
                        lemma_index(px, py, start.width as int, start.height as int);
                        lemma_index(dx as int, dy as int, start.width as int, start.height as int);
                        if (px, py) != (dx as int, dy as int) {
                            lemma_index_distinct(
                                px,
                                py,
                                dx as int,
                                dy as int,
                                dest@.width as int,
                            );
                            assert(dest@.at(px, py) == before.at(px, py));
                        } else {
                            assert(dest@.at(px, py) == v);
                        }
                    }
                }
                col = col + 1;
            }
            row = row + 1;
        }
    }

    /// This grid shifted by `(dx, dy)`: each cell takes the cell `dx`
    /// columns left and `dy` rows up of it, or `blank` where that lies
    /// off the grid.
    pub fn shifted(&self, dx: i16, dy: i16, blank: T) -> (r: Grid<T>)
        where
            T: Copy,
        ensures
            r@.width == self@.width,
            r@.height == self@.height,
            forall|px: int, py: int|
                #![trigger r@.at(px, py)]
                self@.contains(px, py) ==> r@.at(px, py) == shifted_at(
                    self@,
                    dx as int,
                    dy as int,
                    blank,
                    px,
                    py,
                ),
    {
        proof {
            use_type_invariant(self);
        }
        let w = self.width;
        let h = self.height;
        let n: usize = self.cells.len();
        let mut out = Grid::new(w, h, blank);
        proof {
            assert forall|px: int, py: int| self@.contains(px, py) implies #[trigger] out@.at(px, py)
                == blank by {
                lemma_index(px, py, w as int, h as int);
            }
        }
        let mut y: u16 = 0;
        while y < h
            invariant
                w == self@.width,
                h == self@.height,
                out@.width == w,
                out@.height == h,
                out@.cells.len() == w * h,
                y <= h,
                forall|px: int, py: int|
                    #![trigger out@.at(px, py)]
                    self@.contains(px, py) ==> out@.at(px, py) == if py < y {
                        shifted_at(self@, dx as int, dy as int, blank, px, py)
                    } else {
                        blank
                    },
            decreases h - y,
        {
            let mut x: u16 = 0;
            while x < w
                invariant
                    w == self@.width,
                    h == self@.height,
                    out@.width == w,
                    out@.height == h,
                    out@.cells.len() == w * h,
                    y < h,
                    x <= w,
                    forall|px: int, py: int|
                        #![trigger out@.at(px, py)]
                        self@.contains(px, py) ==> out@.at(px, py) == if py < y || (py == y && px
                            < x) {
                            shifted_at(self@, dx as int, dy as int, blank, px, py)
                        } else {
                            blank
                        },
                decreases w - x,
            {
                let src_x = x as i32 - dx as i32;
                let src_y = y as i32 - dy as i32;
                let v = if src_x >= 0 && src_y >= 0 && src_x < w as i32 && src_y < h as i32 {
                    *self.get(src_x as u16, src_y as u16)
                } else {
                    blank
                };
                let ghost before = out@;
                out.set(x, y, v);
                proof {
                    use_type_invariant(&out);
                    assert forall|px: int, py: int| self@.contains(px, py) implies #[trigger] out@.at(
                        px,
                        py,
                    ) == if py < y || (py == y && px < x + 1) {
                        shifted_at(self@, dx as int, dy as int, blank, px, py)
                    } else {
                        blank
                    } by {
                        lemma_index(px, py, w as int, h as int);
                        lemma_index(x as int, y as int, w as int, h as int);
                        if (px, py) != (x as int, y as int) {
                            lemma_index_distinct(px, py, x as int, y as int, w as int);
                            assert(out@.at(px, py) == before.at(px, py));
                        } else {
                            assert(out@.at(px, py) == v);
                        }
                    }
                }
                x = x + 1;
            }
            y = y + 1;
        }
        out
    }
}

impl<T: Clone> Clone for Grid<T> {
    /// A grid of the same size holding a clone of each cell.
    fn clone(&self) -> (r: Self)
        ensures
            r@.width == self@.width,
            r@.height == self@.height,
            r@.cells.len() == self@.cells.len(),
            forall|i: int| 0 <= i < self@.cells.len() ==> cloned::<T>(self@.cells[i], r@.cells[i]),
    {
        proof {
            use_type_invariant(self);
        }
        Grid { width: self.width, height: self.height, cells: self.cells.clone() }
    }
}

} // verus!
