use std::num::NonZeroU16;
use ttui::snapshot::color::{brighten, bg_to_rgb, swap, to_rgb, Rgb, ScreenColor};
use ttui::snapshot::glyph::GlyphError;
use ttui::snapshot::render::{
    observable_cell, observable_screen, render_cells, Frame, ObservableCell, ParsedCell,
    RenderError,
};

const CELL_PX: u32 = 16;

fn rgb(r: u8, g: u8, b: u8) -> Rgb {
    Rgb { r, g, b }
}

fn screen_color(c: vt100::Color) -> ScreenColor {
    match c {
        vt100::Color::Default => ScreenColor::Default,
        vt100::Color::Idx(i) => ScreenColor::Idx(i),
        vt100::Color::Rgb(r, g, b) => ScreenColor::Rgb(r, g, b),
    }
}

fn parsed(cell: Option<&vt100::Cell>) -> Option<ParsedCell> {
    cell.map(|c| ParsedCell {
        first: c.contents().chars().next(),
        fg: screen_color(c.fgcolor()),
        bg: screen_color(c.bgcolor()),
        bold: c.bold(),
        underline: c.underline(),
        inverse: c.inverse(),
    })
}

fn observed(screen: &vt100::Screen) -> (u16, u16, Vec<ObservableCell>) {
    let (rows, cols) = screen.size();
    let (rows, cols) = (rows.get(), cols.get());
    let mut cells = Vec::new();
    for row in 0..rows {
        for col in 0..cols {
            cells.push(parsed(screen.cell(row, col)));
        }
    }
    (rows, cols, observable_screen(&cells))
}

fn render_screen(screen: &vt100::Screen) -> Result<Frame, RenderError> {
    let (rows, cols, cells) = observed(screen);
    render_cells(rows, cols, &cells)
}

fn pixel(frame: &Frame, x: u32, y: u32) -> [u8; 4] {
    let i = 4 * (y * frame.width + x) as usize;
    [frame.rgba[i], frame.rgba[i + 1], frame.rgba[i + 2], frame.rgba[i + 3]]
}

fn parse(bytes: &[u8]) -> vt100::Parser {
    let mut p = vt100::Parser::new(NonZeroU16::new(1).unwrap(), NonZeroU16::new(4).unwrap(), 0);
    p.process(bytes);
    p
}

// ---- colors ----

#[test]
fn default_color_maps_to_the_conventional_terminal_default() {
    assert_eq!(to_rgb(ScreenColor::Default), rgb(229, 229, 229));
}

#[test]
fn rgb_color_passes_through_unchanged() {
    assert_eq!(to_rgb(ScreenColor::Rgb(10, 20, 30)), rgb(10, 20, 30));
}

#[test]
fn basic_16_indices_map_to_standard_ansi_colors() {
    assert_eq!(to_rgb(ScreenColor::Idx(1)), rgb(205, 0, 0));
    assert_eq!(to_rgb(ScreenColor::Idx(2)), rgb(0, 205, 0));
    assert_eq!(to_rgb(ScreenColor::Idx(9)), rgb(255, 0, 0));
}

#[test]
fn color_cube_indices_map_via_the_standard_xterm_formula() {
    assert_eq!(to_rgb(ScreenColor::Idx(16)), rgb(0, 0, 0));
    assert_eq!(to_rgb(ScreenColor::Idx(231)), rgb(255, 255, 255));
}

#[test]
fn grayscale_ramp_indices_map_to_increasing_gray() {
    assert_eq!(to_rgb(ScreenColor::Idx(232)), rgb(8, 8, 8));
    assert_eq!(to_rgb(ScreenColor::Idx(255)), rgb(238, 238, 238));
}

#[test]
fn brighten_lightens_each_channel_toward_white_and_saturates() {
    assert_eq!(brighten(rgb(100, 100, 100)), rgb(140, 140, 140));
    assert_eq!(brighten(rgb(250, 0, 0)), rgb(255, 40, 40));
}

#[test]
fn swap_exchanges_fg_and_bg() {
    let fg = rgb(1, 2, 3);
    let bg = rgb(4, 5, 6);
    assert_eq!(swap(fg, bg), (bg, fg));
}

#[test]
fn cube_index_mixes_its_three_axes() {
    // 16 + 36*1 + 6*2 + 3 = 67 -> levels (95, 135, 175).
    assert_eq!(to_rgb(ScreenColor::Idx(67)), rgb(95, 135, 175));
    assert_eq!(to_rgb(ScreenColor::Idx(12)), rgb(92, 92, 255));
}

#[test]
fn default_background_is_black_but_other_backgrounds_map_as_foregrounds() {
    assert_eq!(bg_to_rgb(ScreenColor::Default), rgb(0, 0, 0));
    assert_eq!(bg_to_rgb(ScreenColor::Idx(1)), rgb(205, 0, 0));
    assert_eq!(bg_to_rgb(ScreenColor::Rgb(1, 2, 3)), rgb(1, 2, 3));
}

// ---- rasterizing ----

#[test]
#[allow(clippy::identity_op)]
fn image_dimensions_match_screen_size_times_cell_px() {
    let parser = parse(b"abcd");
    let img = render_screen(parser.screen()).unwrap();
    assert_eq!(img.width, 4 * CELL_PX);
    assert_eq!(img.height, 1 * CELL_PX);
    assert_eq!(img.rgba.len(), (4 * CELL_PX * CELL_PX * 4) as usize);
}

#[test]
fn plain_text_uses_default_fg_over_default_bg() {
    let parser = parse(b"a");
    let img = render_screen(parser.screen()).unwrap();
    assert_eq!(pixel(&img, 0, 0), [0, 0, 0, 255]);
}

#[test]
fn bold_text_brightens_the_foreground() {
    let parser = parse(b"\x1b[1ma\x1b[0m");
    let img = render_screen(parser.screen()).unwrap();
    let has_bright_pixel = img.rgba.chunks(4).any(|p| p[0] > 229);
    assert!(has_bright_pixel, "expected a brightened foreground pixel");
}

#[test]
fn reverse_video_swaps_fg_and_bg_across_the_whole_cell() {
    let parser = parse(b"\x1b[7ma\x1b[0m");
    let img = render_screen(parser.screen()).unwrap();
    assert_eq!(pixel(&img, 0, 0), [229, 229, 229, 255]);
}

#[test]
fn underline_draws_a_line_on_the_bottom_row_of_the_cell() {
    let parser = parse(b"\x1b[4m \x1b[0m");
    let img = render_screen(parser.screen()).unwrap();
    assert_eq!(pixel(&img, 0, CELL_PX - 1), [229, 229, 229, 255]);
}

#[test]
fn observable_screen_distinguishes_identical_text_over_different_backgrounds() {
    let plain = parse(b"abcd");
    let on_red = parse(b"\x1b[41mabcd\x1b[0m");

    assert_eq!(
        plain.screen().contents(),
        on_red.screen().contents(),
        "precondition: the old plain-text signal cannot tell these apart"
    );
    assert_ne!(
        observed(plain.screen()).2,
        observed(on_red.screen()).2,
        "observable_screen must see the background change render_cells renders"
    );
}

#[test]
fn unmapped_glyph_is_a_hard_error_naming_the_codepoint_and_position() {
    let mut p = vt100::Parser::new(NonZeroU16::new(1).unwrap(), NonZeroU16::new(1).unwrap(), 0);
    p.process("\u{2726}".as_bytes());
    let err = render_screen(p.screen()).unwrap_err();
    assert_eq!(err, RenderError::Glyph(GlyphError::Unmapped('\u{2726}'), 0, 0));
}

#[test]
fn unmapped_glyph_error_names_the_first_such_cell_in_row_major_order() {
    let blank = observable_cell(None);
    let star = ObservableCell { ch: '\u{2726}', ..blank };
    let cells = vec![blank, blank, blank, star, blank, star];
    let err = render_cells(2, 3, &cells).err().unwrap();
    assert_eq!(err, RenderError::Glyph(GlyphError::Unmapped('\u{2726}'), 1, 0));
}

#[test]
fn an_absent_cell_is_a_blank_in_the_default_foreground_on_black() {
    let blank = observable_cell(None);
    assert_eq!(blank.ch, ' ');
    assert_eq!(blank.fg, rgb(229, 229, 229));
    assert_eq!(blank.bg, rgb(0, 0, 0));
    let empty = observable_cell(Some(ParsedCell {
        first: None,
        fg: ScreenColor::Idx(1),
        bg: ScreenColor::Idx(4),
        bold: false,
        underline: false,
        inverse: false,
    }));
    assert_eq!(empty.ch, ' ');
    assert_eq!(empty.fg, rgb(205, 0, 0));
    assert_eq!(empty.bg, rgb(0, 0, 238));
}

#[test]
fn each_glyph_pixel_is_doubled_in_both_directions() {
    let blank = observable_cell(None);
    // A fully set Braille pattern lights every glyph pixel.
    let full = ObservableCell { ch: '\u{28FF}', fg: rgb(9, 8, 7), ..blank };
    let img = render_cells(1, 2, &[blank, full]).unwrap();
    assert_eq!(pixel(&img, 0, 0), [0, 0, 0, 255]);
    assert_eq!(pixel(&img, 16, 0), [9, 8, 7, 255]);
    assert_eq!(pixel(&img, 31, 15), [9, 8, 7, 255]);
}
