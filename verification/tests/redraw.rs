use ttui::color::Color;
use ttui::redraw::{render_ops, DrawCell, TermOp};

fn d(x: u16, y: u16, symbol: char, fg: Color, bg: Color, bold: bool) -> DrawCell {
    DrawCell { x, y, symbol, fg, bg, bold }
}

fn count(ops: &[TermOp], op: TermOp) -> usize {
    ops.iter().filter(|o| **o == op).count()
}

fn move_count(ops: &[TermOp]) -> usize {
    ops.iter().filter(|o| matches!(o, TermOp::MoveTo(_, _))).count()
}

fn prints(ops: &[TermOp], c: char) -> bool {
    ops.contains(&TermOp::Print(c))
}

#[test]
fn empty_diffs_produce_no_output() {
    assert!(render_ops(&[]).is_empty());
}

#[test]
fn single_diff_emits_move_colors_intensity_and_glyph() {
    let out = render_ops(&[d(3, 2, 'A', Color::Reset, Color::Reset, false)]);
    assert_eq!(move_count(&out), 1);
    assert!(prints(&out, 'A'));
    assert_eq!(count(&out, TermOp::Foreground(Color::Reset)), 1);
    assert_eq!(count(&out, TermOp::Background(Color::Reset)), 1);
    assert_eq!(count(&out, TermOp::Intensity(false)), 1);
    assert_eq!(
        out,
        vec![
            TermOp::MoveTo(3, 2),
            TermOp::Intensity(false),
            TermOp::Foreground(Color::Reset),
            TermOp::Background(Color::Reset),
            TermOp::Print('A'),
        ]
    );
}

#[test]
fn contiguous_same_styled_run_moves_once_and_sets_style_once() {
    let out = render_ops(&[
        d(3, 2, 'A', Color::Reset, Color::Reset, false),
        d(4, 2, 'B', Color::Reset, Color::Reset, false),
    ]);
    assert_eq!(move_count(&out), 1, "contiguous run needs one MoveTo");
    assert_eq!(count(&out, TermOp::Foreground(Color::Reset)), 1);
    assert_eq!(count(&out, TermOp::Background(Color::Reset)), 1);
    assert_eq!(count(&out, TermOp::Intensity(false)), 1);
    assert!(prints(&out, 'A') && prints(&out, 'B'));
}

#[test]
fn positional_gap_forces_a_second_move() {
    let out = render_ops(&[
        d(3, 2, 'A', Color::Reset, Color::Reset, false),
        d(6, 2, 'B', Color::Reset, Color::Reset, false),
    ]);
    assert_eq!(move_count(&out), 2);
}

#[test]
fn new_row_forces_a_second_move() {
    let out = render_ops(&[
        d(3, 2, 'A', Color::Reset, Color::Reset, false),
        d(4, 3, 'B', Color::Reset, Color::Reset, false),
    ]);
    assert_eq!(move_count(&out), 2);
}

#[test]
fn color_change_mid_run_re_emits_that_color_only() {
    let out = render_ops(&[
        d(3, 2, 'A', Color::Reset, Color::Reset, false),
        d(4, 2, 'B', Color::Red, Color::Reset, false),
    ]);
    assert_eq!(move_count(&out), 1, "still contiguous");
    assert_eq!(count(&out, TermOp::Foreground(Color::Reset)), 1);
    assert_eq!(count(&out, TermOp::Foreground(Color::Red)), 1);
    assert_eq!(count(&out, TermOp::Background(Color::Reset)), 1, "bg unchanged, emitted once");
}

#[test]
fn bold_toggle_emits_intensity_transitions() {
    let out = render_ops(&[
        d(3, 2, 'A', Color::Reset, Color::Reset, false),
        d(4, 2, 'B', Color::Reset, Color::Reset, true),
        d(5, 2, 'C', Color::Reset, Color::Reset, false),
    ]);
    assert_eq!(count(&out, TermOp::Intensity(true)), 1);
    assert_eq!(count(&out, TermOp::Intensity(false)), 2, "first cell + bold-off transition");
}

#[test]
fn a_cell_left_of_the_last_one_is_not_contiguous() {
    let out = render_ops(&[
        d(5, 2, 'A', Color::Reset, Color::Reset, false),
        d(4, 2, 'B', Color::Reset, Color::Reset, false),
        d(0, 2, 'C', Color::Reset, Color::Reset, false),
    ]);
    assert_eq!(move_count(&out), 3);
}
