use ttui::color::Color;
use ttui::grid::Grid;

type Cell = Option<(char, Color)>;

fn marked(symbol: char) -> Cell {
    Some((symbol, Color::Reset))
}

fn filled(width: u16, height: u16, symbol: char) -> Grid<Cell> {
    let mut g = Grid::new(width, height, None);
    for y in 0..height {
        for x in 0..width {
            g.set(x, y, marked(symbol));
        }
    }
    g
}

#[test]
fn new_buffer_is_filled_with_default_cells() {
    let g: Grid<Cell> = Grid::new(3, 2, None);
    assert_eq!(g.width(), 3);
    assert_eq!(g.height(), 2);
    assert_eq!(*g.get(0, 0), None);
    assert_eq!(*g.get(2, 1), None);
}

#[test]
fn set_then_get_returns_the_cell() {
    let mut g: Grid<Cell> = Grid::new(3, 2, None);
    let cell = Some(('x', Color::Red));
    g.set(1, 1, cell);
    assert_eq!(*g.get(1, 1), cell);
    assert_eq!(*g.get(1, 0), None);
}

#[test]
fn set_at_the_last_valid_cell_still_works() {
    let mut g: Grid<Cell> = Grid::new(4, 3, None);
    g.set(3, 2, marked('Z'));
    assert_eq!(*g.get(3, 2), marked('Z'));
}

#[test]
fn blit_at_the_origin_copies_every_cell() {
    let src = filled(2, 2, 'x');
    let mut dest = Grid::new(2, 2, None);
    src.blit(&mut dest, 0, 0);
    for y in 0..2 {
        for x in 0..2 {
            assert_eq!(*dest.get(x, y), marked('x'), "({x}, {y})");
        }
    }
}

#[test]
fn blit_places_the_sources_top_left_at_the_offset() {
    let src = filled(2, 1, 'x');
    let mut dest = Grid::new(4, 3, None);
    src.blit(&mut dest, 1, 2);
    assert_eq!(*dest.get(1, 2), marked('x'));
    assert_eq!(*dest.get(2, 2), marked('x'));
    assert_eq!(*dest.get(0, 2), None);
    assert_eq!(*dest.get(3, 2), None);
    assert_eq!(*dest.get(1, 1), None);
}

#[test]
fn blit_writes_only_what_fits_when_the_source_overhangs() {
    let src = filled(4, 4, 'x');
    let mut dest = Grid::new(3, 2, None);
    src.blit(&mut dest, 1, 1);
    assert_eq!(*dest.get(1, 1), marked('x'));
    assert_eq!(*dest.get(2, 1), marked('x'));
    assert_eq!(*dest.get(0, 0), None);
    assert_eq!(*dest.get(0, 1), None);
}

#[test]
fn blit_past_the_right_edge_does_not_wrap_onto_the_next_row() {
    let src = filled(2, 1, 'x');
    let mut dest = Grid::new(4, 3, None);
    src.blit(&mut dest, 4, 0);
    for y in 0..3 {
        for x in 0..4 {
            assert_eq!(*dest.get(x, y), None, "({x}, {y}) was written by an out-of-bounds blit");
        }
    }
}

#[test]
fn blit_partly_past_the_right_edge_clips_the_overhanging_columns() {
    let src = filled(3, 1, 'x');
    let mut dest = Grid::new(4, 3, None);
    src.blit(&mut dest, 3, 0);
    assert_eq!(*dest.get(3, 0), marked('x'));
    for x in 0..4 {
        assert_eq!(*dest.get(x, 1), None, "(({x}, 1))");
    }
}

#[test]
fn blit_past_the_bottom_edge_writes_nothing() {
    let src = filled(2, 2, 'x');
    let mut dest = Grid::new(4, 2, None);
    src.blit(&mut dest, 0, 2);
    for y in 0..2 {
        for x in 0..4 {
            assert_eq!(*dest.get(x, y), None, "({x}, {y})");
        }
    }
}

#[test]
fn blit_near_u16_max_does_not_overflow_the_offset_arithmetic() {
    let src = filled(4, 4, 'x');
    let mut dest = Grid::new(4, 4, None);
    src.blit(&mut dest, u16::MAX - 1, u16::MAX - 1);
    assert_eq!(*dest.get(0, 0), None);
}

#[test]
fn shake_with_zero_offset_returns_unchanged_buffer() {
    let mut g: Grid<Cell> = Grid::new(2, 2, None);
    let cell = Some(('x', Color::Red));
    g.set(0, 0, cell);
    let result = g.shifted(0, 0, None);
    assert_eq!(*result.get(0, 0), cell);
}

#[test]
fn shake_with_positive_dx_moves_cell_right() {
    let mut g: Grid<Cell> = Grid::new(3, 1, None);
    let cell = Some(('a', Color::Green));
    g.set(0, 0, cell);
    let result = g.shifted(1, 0, None);
    assert_eq!(*result.get(1, 0), cell);
    assert_eq!(*result.get(0, 0), None);
}

#[test]
fn shake_with_negative_dy_moves_cell_up() {
    let mut g: Grid<Cell> = Grid::new(1, 2, None);
    let cell = Some(('b', Color::Blue));
    g.set(0, 1, cell);
    let result = g.shifted(0, -1, None);
    assert_eq!(*result.get(0, 0), cell);
    assert_eq!(*result.get(0, 1), None);
}

#[test]
fn shake_with_large_offset_clears_all_cells() {
    let mut g: Grid<Cell> = Grid::new(3, 3, None);
    let cell = Some(('c', Color::Cyan));
    g.set(0, 0, cell);
    g.set(1, 1, cell);
    g.set(2, 2, cell);
    let result = g.shifted(3, 0, None);
    for y in 0..3 {
        for x in 0..3 {
            assert_eq!(*result.get(x, y), None);
        }
    }
}
