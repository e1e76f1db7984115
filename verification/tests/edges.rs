use std::time::Duration;
use ttui::canvas::{Canvas, CanvasMode};
use ttui::color::Color;
use ttui::glitch::GlitchState;
use ttui::layout::Rect;
use ttui::snapshot::glyph::braille_glyph_for;
use ttui::snapshot::color::ScreenColor;
use ttui::snapshot::glyph::GlyphError;
use ttui::snapshot::png::frame_png;
use ttui::snapshot::pty::dsr_query_seen;
use ttui::snapshot::render::RenderError;
use ttui::snapshot::screen::{capture, screen_cells};
use ttui::theme::{BorderSet, Theme};
use ttui::transition::Transition;
use ttui::widgets::analog_toggle::AnalogToggle;
use ttui::widgets::block::Block;
use ttui::widgets::cockpit_panel::CockpitPanel;
use ttui::widgets::dial::dial_label;
use ttui::widgets::dna_console::DNAConsole;
use ttui::widgets::energy_core::EnergyCore;
use ttui::widgets::list::List;
use ttui::widgets::smash_border::SmashBorder;
use ttui::widgets::sparkline::sparkline_paints;
use ttui::widgets::table::{fit, fit_by_widths, Table};
use ttui::widgets::text::Text;

fn rect(x: u16, y: u16, width: u16, height: u16) -> Rect {
    Rect { x, y, width, height }
}

fn theme() -> Theme {
    Theme {
        background: Color::Reset,
        primary: Color::Red,
        secondary: Color::Blue,
        tertiary: Color::Green,
        accent: Color::Yellow,
        primary_end: None,
        border: BorderSet::single_line(),
        border_style: Default::default(),
        border_thick: false,
    }
}

#[test]
fn start_takes_the_duration_in_nanoseconds() {
    let t = Transition::start(Duration::new(2, 5));
    assert_eq!(t.duration_nanos(), 2_000_000_005);
    assert_eq!(t.elapsed_nanos(), 0);
}

#[test]
fn tick_advances_by_the_elapsed_nanoseconds() {
    let mut t = Transition::start(Duration::from_secs(1));
    t.tick(Duration::from_nanos(7));
    assert_eq!(t.elapsed_nanos(), 7);
}

#[test]
fn glitch_trigger_and_tick_follow_the_durations() {
    let mut g = GlitchState::new();
    g.trigger(Duration::from_millis(10));
    assert_eq!(g.transition().unwrap().duration_nanos(), 10_000_000);
    g.tick(Duration::from_millis(4));
    assert_eq!(g.transition().unwrap().elapsed_nanos(), 4_000_000);
    g.tick(Duration::from_millis(6));
    assert!(!g.is_active());
}

#[test]
fn small_borders_at_the_far_edge_draw_nothing() {
    let area = rect(65000, 0, 1000, 1);
    let (paints, inner) = Block::new().paint(area, 65535, 10);
    assert!(paints.is_empty());
    assert_eq!(inner, area);
    let (paints, inner) = SmashBorder::new().paint(area, &theme());
    assert!(paints.is_empty());
    assert_eq!(inner, area);
    let (paints, inner) = CockpitPanel::new(true).paint(rect(65535, 65535, 3, 3), &theme());
    assert!(paints.is_empty());
    assert_eq!(inner, rect(65535, 65535, 0, 0));
}

#[test]
fn rows_reach_the_last_column() {
    let console = DNAConsole::new("AB", Color::Red, Color::Blue);
    let area = rect(65535, 0, 1, 1);
    assert!(console.fits(area));
    let paints = console.paint(area);
    assert_eq!(paints.len(), 1);
    assert_eq!((paints[0].x, paints[0].symbol), (65535, '▌'));
    assert!(!console.fits(rect(65535, 0, 2, 1)));

    let text = Text::new("a");
    assert!(text.fits(rect(65535, 0, 5, 1)));
    assert_eq!(text.paint(rect(65535, 0, 5, 1))[0].x, 65535);
    assert!(!Text::new("ab").fits(rect(65535, 0, 5, 1)));

    let toggle = AnalogToggle::new(true).paint(rect(65531, 0, 5, 1));
    assert_eq!(toggle.last().unwrap().x, 65535);

    let core = EnergyCore::new(100, Color::Red).paint(rect(65534, 0, 2, 1));
    assert_eq!(core.len(), 2);

    let spark = sparkline_paints(&[0, 7], rect(65534, 0, 2, 1), Color::Red);
    assert_eq!(spark[1].x, 65535);
}

#[test]
fn list_and_table_ranges() {
    let items = vec!["x".to_string()];
    let list = List::new(&items, 0);
    assert!(list.fits(rect(65535, 65535, 1, 1)));
    assert_eq!(list.paint(rect(65535, 65535, 1, 1)).len(), 2);
    assert!(list.fits(rect(65535, 65535, 0, 3)));
    assert!(!list.fits(rect(65535, 0, 2, 1)));

    let headers = vec!["a".to_string(), "b".to_string()];
    let rows: Vec<Vec<String>> = vec![];
    assert!(!Table::new(&headers, &rows, 0, 40000).fits(rect(0, 0, 5, 1)));
    assert!(Table::new(&headers, &rows, 0, 3).fits(rect(0, 0, 5, 1)));
    assert!(!Table::new(&headers, &rows, 0, 3).fits(rect(65534, 0, 5, 1)));
}

#[test]
fn fit_by_widths_uses_the_given_widths() {
    assert_eq!(fit_by_widths("abc", &[2, 2, 2], 4), "a\u{2026}");
    assert_eq!(fit_by_widths("abc", &[1, 1, 1], 3), "abc");
    assert_eq!(fit_by_widths("abc", &[3, 1, 1], 2), "");
    assert_eq!(fit("中文字", 5), "中文\u{2026}");
}

#[test]
fn braille_patterns_compose_by_dots() {
    let a = braille_glyph_for('\u{2801}').unwrap();
    let b = braille_glyph_for('\u{2880}').unwrap();
    let ab = braille_glyph_for('\u{2881}').unwrap();
    for row in 0..8 {
        assert_eq!(ab[row], a[row] | b[row]);
    }
    assert_eq!(braille_glyph_for('\u{2800}').unwrap(), [0u8; 8]);
    assert_ne!(a, b);
}

#[test]
fn empty_rects_may_start_anywhere() {
    let mut c = Canvas::new(2, 2, CanvasMode::HalfBlock);
    c.rect(65535, 0, 5, 0, Color::Red);
    c.fill_rect(65535, 0, 5, 0, Color::Red);
    for cy in 0..2 {
        for cx in 0..2 {
            assert_eq!(c.cell_at(cx, cy), None);
        }
    }
}

#[test]
fn dial_labels_read_away_from_the_anchor_and_clip() {
    let area = rect(0, 0, 7, 3);
    let right = dial_label("abc", 5, 1, true, false, area);
    let cells: Vec<(u16, char)> = right.iter().map(|p| (p.x, p.symbol)).collect();
    assert_eq!(cells, vec![(5, 'a'), (6, 'b')]);
    assert!(right.iter().all(|p| p.y == 1 && !p.opaque && p.fg == Color::Reset));
    let left = dial_label("abc", 1, 1, false, true, area);
    let cells: Vec<(u16, char)> = left.iter().map(|p| (p.x, p.symbol)).collect();
    assert_eq!(cells, vec![(0, 'b'), (1, 'c')]);
    assert!(left.iter().all(|p| p.fg == Color::Black && p.bg == Color::White));
    assert!(dial_label("abc", 1, 5, false, true, area).is_empty());
}

#[test]
fn blit_paints_places_shown_cells_and_clips() {
    let mut c = Canvas::new(2, 1, CanvasMode::HalfBlock);
    c.set_pixel(1, 0, Color::Red);
    let paints = c.blit_paints(1, 0, 3, 1);
    assert_eq!(paints.len(), 1);
    assert_eq!((paints[0].x, paints[0].y, paints[0].symbol), (2, 0, '▀'));
    assert_eq!((paints[0].fg, paints[0].bg, paints[0].opaque), (Color::Red, Color::Reset, true));
    assert!(c.blit_paints(2, 0, 3, 1).is_empty());
    assert!(c.blit_fits(65534, 0));
    assert!(!c.blit_fits(65535, 0));
}

#[test]
fn a_query_split_over_three_reads_is_seen_on_the_last() {
    let mut carry: Vec<u8> = Vec::new();
    assert!(!dsr_query_seen(&mut carry, b"ab\x1b"));
    assert!(!dsr_query_seen(&mut carry, b"["));
    assert!(dsr_query_seen(&mut carry, b"6nzz"));
    assert!(!dsr_query_seen(&mut carry, b"more"));
}

#[test]
fn the_screen_after_a_stream_is_read_cell_by_cell() {
    let cells = screen_cells(b"a\x1b[1mb", 1, 3);
    assert_eq!(cells.len(), 3);
    let a = cells[0].unwrap();
    assert_eq!((a.first, a.bold, a.fg), (Some('a'), false, ScreenColor::Default));
    let b = cells[1].unwrap();
    assert_eq!((b.first, b.bold), (Some('b'), true));
    assert_eq!(cells[2].unwrap().first, None);
    let colored = screen_cells(b"\x1b[31;42mx", 1, 1);
    assert_eq!(colored[0].unwrap().fg, ScreenColor::Idx(1));
    assert_eq!(colored[0].unwrap().bg, ScreenColor::Idx(2));
}

#[test]
fn capture_rasterizes_the_whole_stream_so_far() {
    let mut stream: Vec<u8> = Vec::new();
    let frame = capture(&mut stream, b"ab", 1, 4).unwrap();
    assert_eq!((frame.width, frame.height), (64, 16));
    let err = capture(&mut stream, "\u{2726}".as_bytes(), 1, 4).unwrap_err();
    assert_eq!(err, RenderError::Glyph(GlyphError::Unmapped('\u{2726}'), 0, 2));
    assert_eq!(stream, "ab\u{2726}".as_bytes().to_vec());
}

#[test]
fn a_frame_encodes_as_png() {
    let bytes = frame_png(1, 1, &[255, 0, 0, 255]).unwrap();
    assert_eq!(&bytes[..8], b"\x89PNG\r\n\x1a\n");
    assert_ne!(bytes, vec![255, 0, 0, 255]);
}
