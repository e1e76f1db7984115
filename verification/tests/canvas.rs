use ttui::canvas::{Canvas, CanvasCell, CanvasMode};
use ttui::color::Color;

#[test]
fn a_new_canvas_shows_nothing() {
    let c = Canvas::new(3, 2, CanvasMode::HalfBlock);
    assert!(c.fits_u16());
    for cy in 0..2 {
        for cx in 0..3 {
            assert_eq!(c.cell_at(cx, cy), None);
        }
    }
}

#[test]
fn half_block_cells_pick_their_glyph_from_the_two_halves() {
    let mut c = Canvas::new(4, 1, CanvasMode::HalfBlock);
    c.set_pixel(0, 0, Color::Red);
    c.set_pixel(1, 1, Color::Blue);
    c.set_pixel(2, 0, Color::Green);
    c.set_pixel(2, 1, Color::Green);
    c.set_pixel(3, 0, Color::Red);
    c.set_pixel(3, 1, Color::Blue);
    assert_eq!(c.cell_at(0, 0), Some(CanvasCell { symbol: '▀', fg: Color::Red, bg: Color::Reset }));
    assert_eq!(c.cell_at(1, 0), Some(CanvasCell { symbol: '▄', fg: Color::Blue, bg: Color::Reset }));
    assert_eq!(c.cell_at(2, 0), Some(CanvasCell { symbol: '█', fg: Color::Green, bg: Color::Green }));
    assert_eq!(c.cell_at(3, 0), Some(CanvasCell { symbol: '▀', fg: Color::Red, bg: Color::Blue }));
}

#[test]
fn braille_cells_set_one_dot_per_sub_pixel_and_take_the_last_color() {
    let mut c = Canvas::new(1, 1, CanvasMode::Braille);
    c.set_pixel(0, 0, Color::Red);
    assert_eq!(c.cell_at(0, 0), Some(CanvasCell { symbol: '\u{2801}', fg: Color::Red, bg: Color::Reset }));
    c.set_pixel(1, 3, Color::Blue);
    assert_eq!(c.cell_at(0, 0), Some(CanvasCell { symbol: '\u{2881}', fg: Color::Blue, bg: Color::Reset }));
    c.clear_pixel(0, 0);
    c.clear_pixel(1, 3);
    assert_eq!(c.cell_at(0, 0), None);
}

#[test]
fn pixels_outside_the_grid_are_ignored() {
    let mut c = Canvas::new(1, 1, CanvasMode::HalfBlock);
    c.set_pixel(1, 0, Color::Red);
    c.set_pixel(0, 2, Color::Red);
    assert_eq!(c.cell_at(0, 0), None);
}

#[test]
fn a_line_covers_both_endpoints_and_the_cells_between() {
    let mut c = Canvas::new(5, 1, CanvasMode::Braille);
    c.line(0, 0, 9, 3, Color::White);
    for cx in 0..5 {
        assert!(c.cell_at(cx, 0).is_some(), "cell {cx} should be touched");
    }
    // The first dot (top-left of cell 0) and last (bottom-right of
    // cell 4) are both set.
    let first = c.cell_at(0, 0).unwrap().symbol as u32 - 0x2800;
    let last = c.cell_at(4, 0).unwrap().symbol as u32 - 0x2800;
    assert_ne!(first & 0x01, 0);
    assert_ne!(last & 0x80, 0);
}

#[test]
fn rect_outlines_and_fill_rect_fills() {
    let mut c = Canvas::new(3, 3, CanvasMode::HalfBlock);
    c.rect(0, 0, 3, 6, Color::Red);
    assert_eq!(c.cell_at(1, 0).unwrap().symbol, '▀');
    assert_eq!(c.cell_at(1, 1), None);
    assert_eq!(c.cell_at(1, 2).unwrap().symbol, '▄');
    c.fill_rect(0, 0, 3, 6, Color::Green);
    for cy in 0..3 {
        for cx in 0..3 {
            assert_eq!(c.cell_at(cx, cy).unwrap().symbol, '█');
        }
    }
}

#[test]
fn empty_rects_draw_nothing() {
    let mut c = Canvas::new(2, 2, CanvasMode::HalfBlock);
    c.rect(0, 0, 0, 3, Color::Red);
    c.rect(0, 0, 3, 0, Color::Red);
    c.fill_rect(0, 0, 0, 3, Color::Red);
    for cy in 0..2 {
        for cx in 0..2 {
            assert_eq!(c.cell_at(cx, cy), None);
        }
    }
}
