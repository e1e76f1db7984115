use ttui::buffer::{CellStyle, Intensity};
use ttui::color::Color;
use ttui::layout::Rect;
use ttui::paint::Paint;
use ttui::theme::{BorderSet, Theme};
use ttui::widgets::analog_toggle::AnalogToggle;
use ttui::widgets::bar_chart::{bar_cells, bar_row, label_width};
use ttui::widgets::block::Block;
use ttui::widgets::cockpit_panel::CockpitPanel;
use ttui::widgets::damage_meter::DamageMeter;
use ttui::widgets::dial::{in_area, Dial};
use ttui::widgets::dna_console::DNAConsole;
use ttui::widgets::energy_core::EnergyCore;
use ttui::widgets::list::List;
use ttui::widgets::scuttle_cursor::ScuttleCursor;
use ttui::widgets::selection::selection_colors;
use ttui::widgets::smash_border::SmashBorder;
use ttui::widgets::sparkline::{level_glyph, sparkline_paints, window_start};
use ttui::widgets::table::Table;
use ttui::widgets::text::Text;

/// A cell of the test grid the writes are applied to.
#[derive(Clone, Copy, Debug, PartialEq)]
struct TestCell {
    symbol: char,
    fg: Color,
    bg: Color,
    style: CellStyle,
    opaque: bool,
}

impl Default for TestCell {
    fn default() -> Self {
        TestCell {
            symbol: ' ',
            fg: Color::Reset,
            bg: Color::Reset,
            style: CellStyle::default(),
            opaque: false,
        }
    }
}

/// A grid that applies writes in order, later ones replacing earlier.
struct TestBuffer {
    width: u16,
    height: u16,
    cells: Vec<TestCell>,
}

impl TestBuffer {
    fn new(width: u16, height: u16) -> Self {
        TestBuffer {
            width,
            height,
            cells: vec![TestCell::default(); width as usize * height as usize],
        }
    }

    fn get(&self, x: u16, y: u16) -> &TestCell {
        assert!(x < self.width && y < self.height);
        &self.cells[y as usize * self.width as usize + x as usize]
    }

    fn apply(&mut self, paints: &[Paint]) {
        for p in paints {
            assert!(p.x < self.width && p.y < self.height, "write off the buffer: {p:?}");
            let i = p.y as usize * self.width as usize + p.x as usize;
            self.cells[i] = TestCell {
                symbol: p.symbol,
                fg: p.fg,
                bg: p.bg,
                style: p.style,
                opaque: p.opaque,
            };
        }
    }
}

fn rect(x: u16, y: u16, width: u16, height: u16) -> Rect {
    Rect { x, y, width, height }
}

fn starred_theme(thick: bool, style: CellStyle) -> Theme {
    Theme {
        background: Color::Black,
        primary: Color::Green,
        secondary: Color::Reset,
        tertiary: Color::Reset,
        accent: Color::Reset,
        primary_end: None,
        border: BorderSet {
            horizontal: '=',
            vertical: '#',
            top_left: '*',
            top_right: '*',
            bottom_left: '*',
            bottom_right: '*',
        },
        border_style: style,
        border_thick: thick,
    }
}

fn render_block(block: &Block, area: Rect, buf: &mut TestBuffer) -> Rect {
    let (paints, inner) = block.paint(area, buf.width, buf.height);
    buf.apply(&paints);
    inner
}

fn shared_test_theme() -> Theme {
    Theme {
        background: Color::Rgb { r: 0, g: 0, b: 32 },
        primary: Color::Rgb { r: 0, g: 255, b: 0 },
        secondary: Color::Rgb { r: 0, g: 128, b: 255 },
        tertiary: Color::Rgb { r: 255, g: 255, b: 0 },
        accent: Color::Rgb { r: 255, g: 0, b: 0 },
        primary_end: None,
        border: BorderSet::single_line(),
        border_style: CellStyle::default(),
        border_thick: false,
    }
}

// ---- theme ----

#[test]
fn default_theme_uses_reset_colors_and_default_border() {
    let t = Theme::default();
    assert_eq!(t.background, Color::Reset);
    assert_eq!(t.primary, Color::Reset);
    assert_eq!(t.secondary, Color::Reset);
    assert_eq!(t.tertiary, Color::Reset);
    assert_eq!(t.accent, Color::Reset);
    assert_eq!(t.border, BorderSet::default());
}

#[test]
fn default_theme_border_style_is_default() {
    assert_eq!(Theme::default().border_style, CellStyle::default());
}

#[test]
fn default_theme_border_thick_is_false() {
    assert!(!Theme::default().border_thick);
}

#[test]
fn default_theme_primary_end_is_none() {
    assert_eq!(Theme::default().primary_end, None);
}

// ---- block ----

#[test]
fn draws_border_and_returns_inner_area() {
    let mut buf = TestBuffer::new(4, 3);
    let inner = render_block(&Block::new(), rect(0, 0, 4, 3), &mut buf);

    assert_eq!(inner, rect(1, 1, 2, 1));
    assert_eq!(buf.get(0, 0).symbol, '┌');
    assert_eq!(buf.get(1, 0).symbol, '─');
    assert_eq!(buf.get(0, 1).symbol, '│');
}

#[test]
fn title_is_drawn_on_the_top_border() {
    let mut buf = TestBuffer::new(6, 3);
    render_block(&Block::new().title("Hi"), rect(0, 0, 6, 3), &mut buf);

    assert_eq!(buf.get(1, 0).symbol, 'H');
    assert_eq!(buf.get(2, 0).symbol, 'i');
}

#[test]
fn without_theme_border_colors_are_reset() {
    let mut buf = TestBuffer::new(4, 3);
    render_block(&Block::new(), rect(0, 0, 4, 3), &mut buf);

    assert_eq!(buf.get(0, 0).symbol, '┌');
    assert_eq!(buf.get(0, 0).fg, Color::Reset);
    assert_eq!(buf.get(0, 0).bg, Color::Reset);
    assert_eq!(buf.get(0, 0).style.intensity, Intensity::Normal);
}

#[test]
fn with_theme_border_uses_theme_glyphs_and_colors() {
    let theme = starred_theme(false, CellStyle::default());
    let mut buf = TestBuffer::new(4, 3);
    render_block(&Block::new().theme(&theme), rect(0, 0, 4, 3), &mut buf);

    assert_eq!(buf.get(0, 0).symbol, '*');
    assert_eq!(buf.get(1, 0).symbol, '=');
    assert_eq!(buf.get(0, 1).symbol, '#');
    assert_eq!(buf.get(0, 0).fg, Color::Green);
    assert_eq!(buf.get(0, 0).bg, Color::Black);
}

#[test]
fn border_cells_are_bold_when_theme_border_style_is_bold() {
    let bold = CellStyle { intensity: Intensity::Bold, ..CellStyle::default() };
    let theme = starred_theme(false, bold);
    let mut buf = TestBuffer::new(4, 3);
    render_block(&Block::new().theme(&theme), rect(0, 0, 4, 3), &mut buf);

    assert_eq!(buf.get(0, 0).style.intensity, Intensity::Bold);
    assert_eq!(buf.get(1, 0).style.intensity, Intensity::Bold);
    assert_eq!(buf.get(0, 1).style.intensity, Intensity::Bold);
}

#[test]
fn border_cells_carry_arbitrary_cellstyle_fields_not_just_intensity() {
    let underlined = CellStyle { underline: true, ..CellStyle::default() };
    let theme = starred_theme(false, underlined);
    let mut buf = TestBuffer::new(4, 3);
    render_block(&Block::new().theme(&theme), rect(0, 0, 4, 3), &mut buf);

    assert!(buf.get(0, 0).style.underline);
    assert!(buf.get(1, 0).style.underline);
    assert!(buf.get(0, 1).style.underline);
}

#[test]
fn thick_border_draws_a_second_ring_one_cell_outward() {
    let theme = starred_theme(true, CellStyle::default());
    let mut buf = TestBuffer::new(6, 5);
    render_block(&Block::new().theme(&theme), rect(1, 1, 4, 3), &mut buf);

    assert_eq!(buf.get(0, 0).symbol, '*');
    assert_eq!(buf.get(1, 0).symbol, '=');
    assert_eq!(buf.get(0, 1).symbol, '#');
    assert_eq!(buf.get(0, 0).fg, Color::Green);
    assert_eq!(buf.get(0, 0).bg, Color::Black);
}

#[test]
fn thin_border_leaves_the_outward_ring_untouched() {
    let theme = starred_theme(false, CellStyle::default());
    let mut buf = TestBuffer::new(6, 5);
    render_block(&Block::new().theme(&theme), rect(1, 1, 4, 3), &mut buf);

    assert_eq!(*buf.get(0, 0), TestCell::default());
}

#[test]
fn theme_less_border_leaves_the_outward_ring_untouched() {
    let mut buf = TestBuffer::new(6, 5);
    render_block(&Block::new(), rect(1, 1, 4, 3), &mut buf);

    assert_eq!(*buf.get(0, 0), TestCell::default());
}

#[test]
fn title_cells_are_not_bold_even_when_theme_border_style_is_bold() {
    let bold = CellStyle { intensity: Intensity::Bold, ..CellStyle::default() };
    let theme = starred_theme(false, bold);
    let mut buf = TestBuffer::new(6, 3);
    render_block(&Block::new().title("Hi").theme(&theme), rect(0, 0, 6, 3), &mut buf);

    assert_eq!(buf.get(1, 0).style.intensity, Intensity::Normal);
    assert_eq!(buf.get(2, 0).style.intensity, Intensity::Normal);
    assert_eq!(buf.get(0, 0).style.intensity, Intensity::Bold);
    assert_eq!(buf.get(3, 0).style.intensity, Intensity::Bold);
    assert_eq!(buf.get(0, 1).style.intensity, Intensity::Bold);
}

#[test]
fn primary_end_none_produces_byte_for_byte_identical_output_to_flat_color() {
    let theme = starred_theme(false, CellStyle::default());
    let mut buf = TestBuffer::new(4, 3);
    render_block(&Block::new().theme(&theme), rect(0, 0, 4, 3), &mut buf);

    for x in 0..4 {
        assert_eq!(buf.get(x, 0).fg, Color::Green);
        assert_eq!(buf.get(x, 2).fg, Color::Green);
    }
    for y in 0..3 {
        assert_eq!(buf.get(0, y).fg, Color::Green);
        assert_eq!(buf.get(3, y).fg, Color::Green);
    }
}

#[test]
fn all_four_corners_render_their_own_distinct_glyph() {
    let mut theme = starred_theme(false, CellStyle::default());
    theme.border.top_left = '1';
    theme.border.top_right = '2';
    theme.border.bottom_left = '3';
    theme.border.bottom_right = '4';
    let mut buf = TestBuffer::new(4, 3);
    render_block(&Block::new().theme(&theme), rect(0, 0, 4, 3), &mut buf);

    assert_eq!(buf.get(0, 0).symbol, '1');
    assert_eq!(buf.get(3, 0).symbol, '2');
    assert_eq!(buf.get(0, 2).symbol, '3');
    assert_eq!(buf.get(3, 2).symbol, '4');
}

#[test]
fn block_under_two_by_two_draws_nothing_and_returns_the_area() {
    let (paints, inner) = Block::new().title("x").paint(rect(2, 2, 1, 5), 10, 10);
    assert!(paints.is_empty());
    assert_eq!(inner, rect(2, 2, 1, 5));
}

#[test]
fn thick_border_at_the_buffer_corner_is_clipped_to_the_buffer() {
    let theme = starred_theme(true, CellStyle::default());
    let mut buf = TestBuffer::new(4, 3);
    render_block(&Block::new().theme(&theme), rect(0, 0, 4, 3), &mut buf);
    // The outward ring cannot grow past (0, 0) or the buffer's far
    // edges, so it lands on the block's own ring.
    assert_eq!(buf.get(0, 0).symbol, '*');
    assert_eq!(buf.get(1, 1).symbol, ' ');
}

#[test]
fn long_title_is_cut_before_the_right_corner() {
    let mut buf = TestBuffer::new(5, 3);
    render_block(&Block::new().title("abcdef"), rect(0, 0, 5, 3), &mut buf);
    assert_eq!(buf.get(1, 0).symbol, 'a');
    assert_eq!(buf.get(3, 0).symbol, 'c');
    assert_eq!(buf.get(4, 0).symbol, '┐');
}

// ---- smash border ----

fn smash_theme() -> Theme {
    Theme {
        background: Color::Black,
        primary: Color::Red,
        secondary: Color::Reset,
        tertiary: Color::White,
        accent: Color::Yellow,
        primary_end: None,
        border: BorderSet {
            horizontal: '=',
            vertical: '|',
            top_left: '+',
            top_right: '+',
            bottom_left: '+',
            bottom_right: '+',
        },
        border_style: CellStyle::default(),
        border_thick: false,
    }
}

#[test]
fn draws_three_concentric_rings_and_returns_shrunk_inner_area() {
    let theme = smash_theme();
    let mut buf = TestBuffer::new(12, 10);
    let (paints, inner) = SmashBorder::new().paint(rect(0, 0, 12, 10), &theme);
    buf.apply(&paints);

    assert_eq!(inner, rect(3, 3, 6, 4));
    assert_eq!(buf.get(0, 0).symbol, '#');
    assert_eq!(buf.get(0, 0).fg, Color::Yellow);
    assert_eq!(buf.get(1, 0).symbol, '#');
    assert_eq!(buf.get(1, 0).fg, Color::Yellow);
    assert_eq!(buf.get(1, 1).symbol, '+');
    assert_eq!(buf.get(1, 1).fg, Color::Red);
    assert_eq!(buf.get(2, 1).symbol, '=');
    assert_eq!(buf.get(2, 1).fg, Color::Red);
    assert_eq!(buf.get(2, 2).symbol, '.');
    assert_eq!(buf.get(2, 2).fg, Color::White);
    assert_eq!(buf.get(3, 2).symbol, '-');
    assert_eq!(buf.get(3, 2).fg, Color::White);
}

#[test]
fn smash_border_too_small_area_degrades_gracefully_without_panic() {
    let theme = smash_theme();
    let mut buf = TestBuffer::new(3, 3);
    let (paints, inner) = SmashBorder::new().paint(rect(0, 0, 3, 3), &theme);
    buf.apply(&paints);

    assert_eq!(inner, rect(1, 1, 1, 1));
    assert_eq!(*buf.get(1, 1), TestCell::default());
}

#[test]
fn middle_ring_renders_all_four_corners_from_their_own_field() {
    let mut theme = smash_theme();
    theme.border = BorderSet {
        horizontal: '=',
        vertical: '|',
        top_left: '1',
        top_right: '2',
        bottom_left: '3',
        bottom_right: '4',
    };
    let mut buf = TestBuffer::new(12, 10);
    let (paints, _) = SmashBorder::new().paint(rect(0, 0, 12, 10), &theme);
    buf.apply(&paints);

    assert_eq!(buf.get(1, 1).symbol, '1');
    assert_eq!(buf.get(10, 1).symbol, '2');
    assert_eq!(buf.get(1, 8).symbol, '3');
    assert_eq!(buf.get(10, 8).symbol, '4');
}

// ---- cockpit panel ----

fn cockpit_theme() -> Theme {
    Theme {
        background: Color::Black,
        primary: Color::Rgb { r: 255, g: 176, b: 0 },
        secondary: Color::Rgb { r: 76, g: 187, b: 23 },
        tertiary: Color::Red,
        accent: Color::Yellow,
        primary_end: None,
        border: BorderSet::default(),
        border_style: CellStyle::default(),
        border_thick: false,
    }
}

fn render_panel(focused: bool, area: Rect, buf: &mut TestBuffer) -> Rect {
    let (paints, inner) = CockpitPanel::new(focused).paint(area, &cockpit_theme());
    buf.apply(&paints);
    inner
}

#[test]
fn focused_panel_uses_theme_primary_for_both_rings() {
    let theme = cockpit_theme();
    let mut buf = TestBuffer::new(10, 8);
    render_panel(true, rect(0, 0, 10, 8), &mut buf);
    assert_eq!(buf.get(0, 0).fg, theme.primary);
    assert_eq!(buf.get(1, 1).fg, theme.primary);
}

#[test]
fn unfocused_panel_uses_theme_secondary_for_both_rings() {
    let theme = cockpit_theme();
    let mut buf = TestBuffer::new(10, 8);
    render_panel(false, rect(0, 0, 10, 8), &mut buf);
    assert_eq!(buf.get(0, 0).fg, theme.secondary);
    assert_eq!(buf.get(1, 1).fg, theme.secondary);
}

#[test]
fn three_corners_are_plus_and_bottom_right_is_the_one_asymmetric_glyph() {
    let mut buf = TestBuffer::new(10, 8);
    render_panel(true, rect(0, 0, 10, 8), &mut buf);
    assert_eq!(buf.get(0, 0).symbol, '+');
    assert_eq!(buf.get(9, 0).symbol, '+');
    assert_eq!(buf.get(0, 7).symbol, '+');
    assert_eq!(buf.get(9, 7).symbol, '¤');
}

#[test]
fn rivets_appear_at_the_expected_deterministic_offsets_on_the_outer_ring() {
    let mut buf = TestBuffer::new(10, 8);
    render_panel(true, rect(0, 0, 10, 8), &mut buf);
    assert_eq!(buf.get(1, 0).symbol, 'o');
    assert_eq!(buf.get(4, 0).symbol, 'o');
    assert_eq!(buf.get(7, 0).symbol, 'o');
    assert_eq!(buf.get(2, 0).symbol, '=');
    assert_eq!(buf.get(3, 0).symbol, '=');
    assert_eq!(buf.get(0, 1).symbol, 'o');
    assert_eq!(buf.get(0, 2).symbol, '#');
}

#[test]
fn inner_ring_has_no_rivets_and_no_asymmetry() {
    let mut buf = TestBuffer::new(10, 8);
    render_panel(true, rect(0, 0, 10, 8), &mut buf);
    assert_eq!(buf.get(1, 1).symbol, '+');
    assert_eq!(buf.get(8, 1).symbol, '+');
    assert_eq!(buf.get(1, 6).symbol, '+');
    assert_eq!(buf.get(8, 6).symbol, '+');
    assert_eq!(buf.get(2, 1).symbol, '-');
    assert_eq!(buf.get(1, 2).symbol, '|');
}

#[test]
fn returns_area_shrunk_by_two_on_each_side() {
    let mut buf = TestBuffer::new(10, 8);
    let inner = render_panel(true, rect(0, 0, 10, 8), &mut buf);
    assert_eq!(inner, rect(2, 2, 6, 4));
}

#[test]
fn cockpit_panel_too_small_area_degrades_gracefully_without_panic() {
    let mut buf = TestBuffer::new(3, 3);
    let inner = render_panel(true, rect(0, 0, 3, 3), &mut buf);
    assert_eq!(inner, rect(0, 0, 0, 0));
    assert_eq!(*buf.get(1, 1), TestCell::default());
}

// ---- dna console ----

#[test]
fn alternates_colors_per_character_with_a_trailing_cursor() {
    let mut buf = TestBuffer::new(10, 1);
    buf.apply(&DNAConsole::new("AB", Color::Red, Color::Blue).paint(rect(0, 0, 10, 1)));

    assert_eq!(buf.get(0, 0).symbol, 'A');
    assert_eq!(buf.get(0, 0).fg, Color::Red);
    assert_eq!(buf.get(1, 0).symbol, 'B');
    assert_eq!(buf.get(1, 0).fg, Color::Blue);
    assert_eq!(buf.get(2, 0).symbol, '▌');
    assert_eq!(buf.get(2, 0).fg, Color::Red);
}

#[test]
fn zero_width_area_renders_nothing_without_panic() {
    let paints = DNAConsole::new("A", Color::Red, Color::Blue).paint(rect(0, 0, 0, 1));
    assert!(paints.is_empty());
}

#[test]
fn one_wide_area_renders_only_the_cursor() {
    let mut buf = TestBuffer::new(1, 1);
    buf.apply(&DNAConsole::new("AB", Color::Red, Color::Blue).paint(rect(0, 0, 1, 1)));

    assert_eq!(buf.get(0, 0).symbol, '▌');
    assert_eq!(buf.get(0, 0).fg, Color::Red);
}

// ---- selection ----

#[test]
fn without_a_theme_the_pre_2_0_colours_are_used() {
    assert_eq!(selection_colors(None, true), (Color::Black, Color::White));
    assert_eq!(selection_colors(None, false), (Color::Reset, Color::Reset));
}

#[test]
fn with_a_theme_selection_is_accent_on_background() {
    let t = shared_test_theme();
    assert_eq!(selection_colors(Some(&t), true), (t.accent, t.background));
}

#[test]
fn with_a_theme_an_unselected_row_is_primary_on_reset() {
    let t = shared_test_theme();
    assert_eq!(selection_colors(Some(&t), false), (t.primary, Color::Reset));
}

// ---- list ----

#[test]
fn renders_each_item_on_its_own_row() {
    let items = vec!["one".to_string(), "two".to_string()];
    let mut buf = TestBuffer::new(5, 2);
    buf.apply(&List::new(&items, 0).paint(rect(0, 0, 5, 2)));

    assert_eq!(buf.get(0, 0).symbol, 'o');
    assert_eq!(buf.get(0, 1).symbol, 't');
}

#[test]
fn selected_row_is_highlighted() {
    let items = vec!["one".to_string(), "two".to_string()];
    let mut buf = TestBuffer::new(5, 2);
    buf.apply(&List::new(&items, 1).paint(rect(0, 0, 5, 2)));

    assert_eq!(buf.get(0, 0).bg, Color::Reset);
    assert_eq!(buf.get(0, 1).bg, Color::White);
}

#[test]
fn themed_list_uses_accent_on_background_for_the_selected_row() {
    let items = vec!["alpha".to_string(), "beta".to_string()];
    let mut buf = TestBuffer::new(10, 2);
    let theme = Theme {
        accent: Color::Rgb { r: 255, g: 0, b: 0 },
        background: Color::Rgb { r: 0, g: 0, b: 32 },
        primary: Color::Rgb { r: 0, g: 255, b: 0 },
        ..shared_test_theme()
    };

    buf.apply(&List::new(&items, 1).theme(&theme).paint(rect(0, 0, 10, 2)));

    assert_eq!(buf.get(0, 1).fg, Color::Rgb { r: 255, g: 0, b: 0 });
    assert_eq!(buf.get(0, 1).bg, Color::Rgb { r: 0, g: 0, b: 32 });
    assert_eq!(buf.get(0, 0).fg, Color::Rgb { r: 0, g: 255, b: 0 });
}

#[test]
fn unthemed_list_keeps_the_pre_2_0_colours() {
    let items = vec!["alpha".to_string(), "beta".to_string()];
    let mut buf = TestBuffer::new(10, 2);
    buf.apply(&List::new(&items, 1).paint(rect(0, 0, 10, 2)));

    assert_eq!(buf.get(0, 1).fg, Color::Black);
    assert_eq!(buf.get(0, 1).bg, Color::White);
    assert_eq!(buf.get(0, 0).fg, Color::Reset);
    assert_eq!(buf.get(0, 0).bg, Color::Reset);
}

#[test]
fn list_rows_past_the_items_are_blank_padded_and_extra_items_cut() {
    let items = vec!["ab".to_string(), "cd".to_string(), "ef".to_string()];
    let mut buf = TestBuffer::new(4, 2);
    buf.apply(&List::new(&items, 0).paint(rect(0, 0, 4, 2)));
    assert_eq!(buf.get(3, 0).symbol, ' ');
    assert_eq!(buf.get(3, 0).bg, Color::White);
    assert_eq!(buf.get(0, 1).symbol, 'c');
}

// ---- table ----

#[test]
fn renders_header_row_then_data_rows() {
    let headers = vec!["Name".to_string()];
    let rows = vec![vec!["svc-a".to_string()], vec!["svc-b".to_string()]];
    let mut buf = TestBuffer::new(10, 3);
    buf.apply(&Table::new(&headers, &rows, 0, 5).paint(rect(0, 0, 10, 3)));

    assert_eq!(buf.get(0, 0).symbol, 'N');
    assert_eq!(buf.get(0, 1).symbol, 's');
}

#[test]
fn selected_data_row_is_highlighted_not_the_header() {
    let headers = vec!["Name".to_string()];
    let rows = vec![vec!["svc-a".to_string()], vec!["svc-b".to_string()]];
    let mut buf = TestBuffer::new(10, 3);
    buf.apply(&Table::new(&headers, &rows, 1, 5).paint(rect(0, 0, 10, 3)));

    assert_eq!(buf.get(0, 0).bg, Color::Reset);
    assert_eq!(buf.get(0, 1).bg, Color::Reset);
    assert_eq!(buf.get(0, 2).bg, Color::White);
}

#[test]
fn table_does_not_panic_on_zero_height_rect() {
    let headers = vec!["Name".to_string()];
    let rows = vec![vec!["svc-a".to_string()], vec!["svc-b".to_string()]];
    let paints = Table::new(&headers, &rows, 0, 5).paint(rect(0, 0, 10, 0));
    assert!(paints.is_empty());
}

#[test]
fn themed_table_colours_header_selected_and_unselected_rows() {
    let headers = vec!["Name".to_string()];
    let rows = vec![vec!["svc-a".to_string()], vec!["svc-b".to_string()]];
    let mut buf = TestBuffer::new(10, 3);
    let theme = shared_test_theme();
    buf.apply(&Table::new(&headers, &rows, 0, 5).theme(&theme).paint(rect(0, 0, 10, 3)));

    assert_eq!(buf.get(0, 0).fg, theme.secondary);
    assert_eq!(buf.get(0, 1).fg, theme.accent);
    assert_eq!(buf.get(0, 1).bg, theme.background);
    assert_eq!(buf.get(0, 2).fg, theme.primary);
}

#[test]
fn unthemed_table_keeps_the_pre_2_0_colours() {
    let headers = vec!["Name".to_string()];
    let rows = vec![vec!["svc-a".to_string()], vec!["svc-b".to_string()]];
    let mut buf = TestBuffer::new(10, 3);
    buf.apply(&Table::new(&headers, &rows, 0, 5).paint(rect(0, 0, 10, 3)));

    assert_eq!(buf.get(0, 0).fg, Color::Reset);
    assert_eq!(buf.get(0, 1).fg, Color::Black);
    assert_eq!(buf.get(0, 1).bg, Color::White);
    assert_eq!(buf.get(0, 2).fg, Color::Reset);
}

#[test]
fn table_columns_are_blank_padded_and_cut_at_the_area_edge() {
    let headers = vec!["ab".to_string(), "cdefg".to_string()];
    let rows: Vec<Vec<String>> = Vec::new();
    let mut buf = TestBuffer::new(6, 1);
    buf.apply(&Table::new(&headers, &rows, 0, 3).paint(rect(0, 0, 6, 1)));
    assert_eq!(buf.get(1, 0).symbol, 'b');
    assert_eq!(buf.get(2, 0).symbol, ' ');
    assert_eq!(buf.get(3, 0).symbol, 'c');
    assert_eq!(buf.get(5, 0).symbol, 'e');
}

// ---- text ----

#[test]
fn renders_characters_left_to_right() {
    let mut buf = TestBuffer::new(5, 1);
    buf.apply(&Text::new("hi").paint(rect(0, 0, 5, 1)));

    assert_eq!(buf.get(0, 0).symbol, 'h');
    assert_eq!(buf.get(1, 0).symbol, 'i');
    assert_eq!(buf.get(2, 0).symbol, ' ');
}

#[test]
fn truncates_content_wider_than_the_area() {
    let mut buf = TestBuffer::new(2, 1);
    buf.apply(&Text::new("hello").paint(rect(0, 0, 2, 1)));

    assert_eq!(buf.get(0, 0).symbol, 'h');
    assert_eq!(buf.get(1, 0).symbol, 'e');
}

#[test]
fn text_does_not_panic_on_zero_height_rect() {
    let paints = Text::new("hello").paint(rect(0, 0, 5, 0));
    assert!(paints.is_empty());
}

#[test]
fn does_not_panic_on_zero_width_rect() {
    let paints = Text::new("hello").paint(rect(0, 0, 0, 5));
    assert!(paints.is_empty());
}

#[test]
fn bg_overrides_the_background_color_even_for_space_characters() {
    let mut buf = TestBuffer::new(5, 1);
    let themed_bg = Color::Rgb { r: 210, g: 180, b: 90 };
    buf.apply(&Text::new("hi there").bg(themed_bg).paint(rect(0, 0, 5, 1)));

    assert_eq!(buf.get(0, 0).bg, themed_bg);
    assert_eq!(buf.get(1, 0).bg, themed_bg);
    assert_eq!(buf.get(2, 0).symbol, ' ');
    assert_eq!(buf.get(2, 0).bg, themed_bg);
}

// ---- analog toggle ----

#[test]
fn off_renders_a_backslash_lever() {
    let mut buf = TestBuffer::new(5, 1);
    buf.apply(&AnalogToggle::new(false).paint(rect(0, 0, 5, 1)));

    let expected = ['[', ' ', '\\', ' ', ']'];
    for (i, ch) in expected.iter().enumerate() {
        assert_eq!(buf.get(i as u16, 0).symbol, *ch);
    }
}

#[test]
fn on_renders_a_forward_slash_lever() {
    let mut buf = TestBuffer::new(5, 1);
    buf.apply(&AnalogToggle::new(true).paint(rect(0, 0, 5, 1)));

    let expected = ['[', ' ', '/', ' ', ']'];
    for (i, ch) in expected.iter().enumerate() {
        assert_eq!(buf.get(i as u16, 0).symbol, *ch);
    }
}

#[test]
fn narrower_than_five_clips_without_panic() {
    let mut buf = TestBuffer::new(2, 1);
    buf.apply(&AnalogToggle::new(false).paint(rect(0, 0, 2, 1)));

    assert_eq!(buf.get(0, 0).symbol, '[');
    assert_eq!(buf.get(1, 0).symbol, ' ');
}

// ---- damage meter ----

#[test]
fn text_wider_than_area_clips_without_panic() {
    let mut buf = TestBuffer::new(2, 1);
    let red = Color::Rgb { r: 255, g: 0, b: 0 };
    buf.apply(&DamageMeter::new(137).paint(rect(0, 0, 2, 1), red));
    assert_eq!(buf.get(0, 0).symbol, '1');
    assert_eq!(buf.get(1, 0).symbol, '3');
}

#[test]
fn damage_meter_writes_the_percent_then_a_percent_sign_see_through() {
    let mut buf = TestBuffer::new(10, 1);
    let red = Color::Rgb { r: 255, g: 0, b: 0 };
    let paints = DamageMeter::new(137).paint(rect(0, 0, 10, 1), red);
    assert_eq!(paints.len(), 4);
    buf.apply(&paints);
    assert_eq!(buf.get(0, 0).symbol, '1');
    assert_eq!(buf.get(1, 0).symbol, '3');
    assert_eq!(buf.get(2, 0).symbol, '7');
    assert_eq!(buf.get(3, 0).symbol, '%');
    assert_eq!(buf.get(0, 0).fg, red);
    assert!(!buf.get(0, 0).opaque);
    assert_eq!(DamageMeter::new(0).paint(rect(0, 0, 10, 1), red).len(), 2);
}

// ---- dial ----

#[test]
fn in_area_is_inclusive_of_the_near_edges_and_exclusive_of_the_far_ones() {
    let area = rect(2, 3, 4, 2);
    assert!(in_area(2, 3, area));
    assert!(in_area(5, 4, area));
    assert!(!in_area(6, 4, area));
    assert!(!in_area(5, 5, area));
    assert!(!in_area(1, 3, area));
    assert!(!in_area(-1, -1, area));
}

#[test]
fn dial_keeps_its_items_and_selection() {
    let items = vec!["A".to_string(), "B".to_string()];
    let dial = Dial::new(&items, 1);
    assert_eq!(dial.items().len(), 2);
    assert_eq!(dial.selected(), 1);
}

// ---- scuttle cursor ----

fn render_cursor(x: f32, y: f32, moving: bool, tick: u64, buf: &mut TestBuffer) {
    let p = ScuttleCursor::new('C').paint(
        x.round() as i32,
        y.round() as i32,
        moving,
        tick,
        buf.width,
        buf.height,
    );
    if let Some(p) = p {
        buf.apply(&[p]);
    }
}

#[test]
fn idle_cursor_ignores_tick_count() {
    let mut buf_a = TestBuffer::new(10, 5);
    render_cursor(3.4, 2.0, false, 0, &mut buf_a);
    assert_eq!(buf_a.get(3, 2).symbol, 'C');

    let mut buf_b = TestBuffer::new(10, 5);
    render_cursor(3.4, 2.0, false, 99, &mut buf_b);
    assert_eq!(buf_b.get(3, 2).symbol, 'C');
}

#[test]
fn moving_cursor_shifts_left_on_even_tick() {
    let mut buf = TestBuffer::new(10, 5);
    render_cursor(5.0, 2.0, true, 0, &mut buf);
    assert_eq!(buf.get(4, 2).symbol, 'C');
    assert_eq!(buf.get(5, 2).symbol, ' ');
}

#[test]
fn moving_cursor_shifts_right_on_odd_tick() {
    let mut buf = TestBuffer::new(10, 5);
    render_cursor(5.0, 2.0, true, 1, &mut buf);
    assert_eq!(buf.get(6, 2).symbol, 'C');
    assert_eq!(buf.get(5, 2).symbol, ' ');
}

#[test]
fn jerked_position_outside_bounds_does_not_panic() {
    let mut buf = TestBuffer::new(3, 3);
    render_cursor(0.0, 0.0, true, 0, &mut buf);
    assert_eq!(*buf.get(0, 0), TestCell::default());
}

// ---- energy core ----

#[test]
fn zero_percent_renders_all_empty_track() {
    let mut buf = TestBuffer::new(10, 1);
    buf.apply(&EnergyCore::new(0, Color::Green).paint(rect(0, 0, 10, 1)));
    for x in 0..10 {
        assert_eq!(buf.get(x, 0).symbol, '░');
        assert_eq!(buf.get(x, 0).fg, Color::Green);
    }
}

#[test]
fn fifty_percent_fills_half() {
    let mut buf = TestBuffer::new(10, 1);
    buf.apply(&EnergyCore::new(50, Color::Green).paint(rect(0, 0, 10, 1)));
    for x in 0..5 {
        assert_eq!(buf.get(x, 0).symbol, '▓');
    }
    for x in 5..10 {
        assert_eq!(buf.get(x, 0).symbol, '░');
    }
}

#[test]
fn full_percent_sparks_every_fourth_cell() {
    let mut buf = TestBuffer::new(8, 1);
    buf.apply(&EnergyCore::new(100, Color::Green).paint(rect(0, 0, 8, 1)));
    assert_eq!(buf.get(0, 0).symbol, '✦');
    assert_eq!(buf.get(0, 0).fg, Color::White);
    assert_eq!(buf.get(1, 0).symbol, '▓');
    assert_eq!(buf.get(4, 0).symbol, '✦');
    assert_eq!(buf.get(5, 0).symbol, '▓');
}

#[test]
fn zero_width_area_does_not_panic() {
    assert!(EnergyCore::new(50, Color::Green).paint(rect(0, 0, 0, 1)).is_empty());
}

#[test]
fn fill_is_held_at_one_hundred_percent_and_rounds_down() {
    assert_eq!(EnergyCore::new(250, Color::Green).filled_width(7), 7);
    assert_eq!(EnergyCore::new(50, Color::Green).filled_width(7), 3);
    assert_eq!(EnergyCore::new(99, Color::Green).filled_width(10), 9);
}

// ---- bar chart layout ----

#[test]
fn bars_align_to_the_longest_label_across_items() {
    let labels = ["A", "Longer"];
    let w = label_width(&labels);
    assert_eq!(w, 6);
    let area = rect(0, 0, 30, 2);
    let first = bar_row(area, 0, "A", w, Color::Reset);
    let second = bar_row(area, 1, "Longer", w, Color::Reset);
    assert_eq!(first.bar_x, 7);
    assert_eq!(second.bar_x, 7);
    assert_eq!(first.bar_space, 23);
    assert_eq!(first.label.len(), 1);
    assert_eq!(second.label.len(), 6);
    let mut buf = TestBuffer::new(30, 2);
    buf.apply(&first.label);
    buf.apply(&bar_cells(first.bar_x, 0, 3, first.bar_space, Color::Reset));
    assert_eq!(buf.get(0, 0).symbol, 'A');
    assert_eq!(buf.get(6, 0).symbol, ' ');
    assert_eq!(buf.get(7, 0).symbol, '█');
    assert_eq!(buf.get(9, 0).symbol, '█');
    assert_eq!(buf.get(10, 0).symbol, ' ');
}

#[test]
fn a_bar_never_runs_past_its_room_and_labels_clip_at_the_edge() {
    let area = rect(0, 0, 4, 1);
    let laid = bar_row(area, 0, "Label", 5, Color::Red);
    assert_eq!(laid.label.len(), 4);
    assert_eq!(laid.bar_x, 4);
    assert_eq!(laid.bar_space, 0);
    assert!(bar_cells(laid.bar_x, 0, 9, laid.bar_space, Color::Red).is_empty());
    assert_eq!(bar_cells(2, 0, 9, 8, Color::Red).len(), 8);
    assert_eq!(label_width(&[]), 0);
}

// ---- sparkline layout ----

#[test]
fn more_values_than_area_width_shows_only_the_trailing_window() {
    assert_eq!(window_start(3, 2), 1);
    assert_eq!(window_start(2, 5), 0);
    assert_eq!(window_start(0, 5), 0);
}

#[test]
fn levels_map_to_eighth_blocks_held_at_the_tallest() {
    let glyphs: Vec<char> = (0..10).map(level_glyph).collect();
    assert_eq!(glyphs, vec!['▁', '▂', '▃', '▄', '▅', '▆', '▇', '█', '█', '█']);
}

#[test]
fn renders_on_exactly_one_row_regardless_of_area_height() {
    let mut buf = TestBuffer::new(5, 3);
    buf.apply(&sparkline_paints(&[0, 7], rect(0, 0, 5, 3), Color::Reset));
    assert_eq!(buf.get(0, 0).symbol, '▁');
    assert_eq!(buf.get(1, 0).symbol, '█');
    assert_eq!(buf.get(2, 0).symbol, ' ');
    assert_eq!(buf.get(0, 1).symbol, ' ');
    assert_eq!(buf.get(0, 2).symbol, ' ');
}
