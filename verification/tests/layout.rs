use ttui::layout::{Constraint, Direction, Layout, Rect};

fn hit_test_rect() -> Rect {
    Rect { x: 5, y: 20, width: 10, height: 4 }
}

#[test]
fn a_point_strictly_inside_is_contained() {
    assert!(hit_test_rect().contains(10, 22));
}

#[test]
fn a_point_on_the_left_or_top_edge_is_contained() {
    assert!(hit_test_rect().contains(5, 22));
    assert!(hit_test_rect().contains(10, 20));
}

#[test]
fn a_point_on_the_right_or_bottom_edge_is_not_contained() {
    assert!(!hit_test_rect().contains(15, 22));
    assert!(!hit_test_rect().contains(10, 24));
}

#[test]
fn a_point_fully_outside_each_direction_is_not_contained() {
    assert!(!hit_test_rect().contains(0, 22));
    assert!(!hit_test_rect().contains(20, 22));
    assert!(!hit_test_rect().contains(10, 15));
    assert!(!hit_test_rect().contains(10, 29));
}

#[test]
fn a_zero_width_or_zero_height_rect_contains_nothing() {
    let zero_w = Rect { x: 5, y: 5, width: 0, height: 10 };
    assert!(!zero_w.contains(5, 10));
    let zero_h = Rect { x: 5, y: 5, width: 10, height: 0 };
    assert!(!zero_h.contains(10, 5));
}

#[test]
fn fixed_constraints_split_horizontally() {
    let area = Rect { x: 0, y: 0, width: 10, height: 5 };
    let layout = Layout::new(
        Direction::Horizontal,
        vec![Constraint::Fixed(3), Constraint::Fixed(7)],
    );
    let rects = layout.split(area);
    assert_eq!(
        rects,
        vec![
            Rect { x: 0, y: 0, width: 3, height: 5 },
            Rect { x: 3, y: 0, width: 7, height: 5 },
        ]
    );
}

#[test]
fn percentage_constraints_split_vertically() {
    let area = Rect { x: 0, y: 0, width: 4, height: 10 };
    let layout = Layout::new(
        Direction::Vertical,
        vec![Constraint::Percentage(40), Constraint::Percentage(60)],
    );
    let rects = layout.split(area);
    assert_eq!(
        rects,
        vec![
            Rect { x: 0, y: 0, width: 4, height: 4 },
            Rect { x: 0, y: 4, width: 4, height: 6 },
        ]
    );
}

#[test]
fn fill_constraints_split_remaining_space_by_weight() {
    let area = Rect { x: 0, y: 0, width: 10, height: 1 };
    let layout = Layout::new(
        Direction::Horizontal,
        vec![Constraint::Fixed(4), Constraint::Fill(1), Constraint::Fill(1)],
    );
    let rects = layout.split(area);
    assert_eq!(
        rects,
        vec![
            Rect { x: 0, y: 0, width: 4, height: 1 },
            Rect { x: 4, y: 0, width: 3, height: 1 },
            Rect { x: 7, y: 0, width: 3, height: 1 },
        ]
    );
}

#[test]
fn margin_and_spacing_shrink_and_separate_children() {
    let area = Rect { x: 0, y: 0, width: 10, height: 5 };
    let layout = Layout::new(
        Direction::Horizontal,
        vec![Constraint::Fixed(2), Constraint::Fixed(2)],
    )
    .margin(1)
    .spacing(1);
    let rects = layout.split(area);
    assert_eq!(
        rects,
        vec![
            Rect { x: 1, y: 1, width: 2, height: 3 },
            Rect { x: 4, y: 1, width: 2, height: 3 },
        ]
    );
}

#[test]
fn fill_weights_share_the_remainder_rounding_down() {
    // 10 cells, Fixed(1) takes 1, 9 remain shared 1:2 -> 3 and 6.
    let area = Rect { x: 2, y: 3, width: 10, height: 4 };
    let rects = Layout::new(
        Direction::Horizontal,
        vec![Constraint::Fixed(1), Constraint::Fill(1), Constraint::Fill(2)],
    )
    .split(area);
    assert_eq!(rects[1], Rect { x: 3, y: 3, width: 3, height: 4 });
    assert_eq!(rects[2], Rect { x: 6, y: 3, width: 6, height: 4 });
    // Rounding down: 9 shared 1:1:1 over weights summing to 4 leaves cells unused.
    let rects = Layout::new(
        Direction::Vertical,
        vec![Constraint::Fill(1), Constraint::Fill(1), Constraint::Fill(2)],
    )
    .split(Rect { x: 0, y: 0, width: 1, height: 9 });
    let heights: Vec<u16> = rects.iter().map(|r| r.height).collect();
    assert_eq!(heights, vec![2, 2, 4]);
    assert!(heights.iter().sum::<u16>() <= 9);
}

#[test]
fn min_is_treated_as_exactly_its_size_and_fixed_can_overflow() {
    let rects = Layout::new(
        Direction::Horizontal,
        vec![Constraint::Min(3), Constraint::Fixed(20)],
    )
    .split(Rect { x: 0, y: 0, width: 10, height: 1 });
    assert_eq!(rects[0].width, 3);
    assert_eq!(rects[1], Rect { x: 3, y: 0, width: 20, height: 1 });
}

#[test]
fn a_margin_larger_than_the_area_leaves_zero_sized_children() {
    let rects = Layout::new(Direction::Vertical, vec![Constraint::Percentage(50)])
        .margin(4)
        .split(Rect { x: 0, y: 0, width: 6, height: 6 });
    assert_eq!(rects, vec![Rect { x: 4, y: 4, width: 0, height: 0 }]);
}

#[test]
fn no_constraints_split_into_nothing() {
    let rects = Layout::new(Direction::Horizontal, vec![])
        .spacing(3)
        .split(Rect { x: 0, y: 0, width: 6, height: 6 });
    assert!(rects.is_empty());
}

#[test]
fn spacing_separates_consecutive_children_exactly() {
    let rects = Layout::new(
        Direction::Vertical,
        vec![Constraint::Fixed(1), Constraint::Fill(1), Constraint::Fixed(2)],
    )
    .spacing(2)
    .split(Rect { x: 0, y: 0, width: 5, height: 12 });
    for w in rects.windows(2) {
        assert_eq!(w[1].y, w[0].y + w[0].height + 2);
        assert_eq!(w[0].width, 5);
    }
    // 12 - 2*2 spacing = 8; fixed take 3; fill gets 5.
    assert_eq!(rects[1].height, 5);
}
