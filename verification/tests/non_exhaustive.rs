use ttui::buffer::Intensity;
use ttui::canvas::CanvasMode;
use ttui::layout::{Constraint, Direction};

#[test]
#[allow(unreachable_patterns)]
fn non_exhaustive_enums_still_match_with_a_wildcard_arm() {
    let i = Intensity::Bold;
    let described = match i {
        Intensity::Normal => "normal",
        Intensity::Bold => "bold",
        Intensity::Dim => "dim",
        _ => "unknown",
    };
    assert_eq!(described, "bold");

    let m = CanvasMode::Braille;
    let described = match m {
        CanvasMode::HalfBlock => "half",
        CanvasMode::Braille => "braille",
        _ => "unknown",
    };
    assert_eq!(described, "braille");

    let d = Direction::Horizontal;
    let described = match d {
        Direction::Horizontal => "h",
        Direction::Vertical => "v",
        _ => "unknown",
    };
    assert_eq!(described, "h");

    let c = Constraint::Fill(1);
    let described = match c {
        Constraint::Fixed(_) => "fixed",
        Constraint::Percentage(_) => "pct",
        Constraint::Min(_) => "min",
        Constraint::Fill(_) => "fill",
        _ => "unknown",
    };
    assert_eq!(described, "fill");
}

#[test]
fn non_exhaustive_enums_are_still_constructible_from_another_crate() {
    let _ = Intensity::Dim;
    let _ = CanvasMode::HalfBlock;
    let _ = Direction::Vertical;
    let _ = Constraint::Percentage(50);
}
