use ttui::event_loop::{decide, needs_full_redraw, LoopAction, Polled, IDLE_POLL_MILLIS};

#[test]
fn input_that_asks_to_quit_ends_the_loop() {
    assert_eq!(decide(Polled::Input { quit: true }, false), LoopAction::Quit);
    assert_eq!(decide(Polled::Input { quit: true }, true), LoopAction::Quit);
}

#[test]
fn other_input_redraws_whether_or_not_the_app_ticks() {
    assert_eq!(decide(Polled::Input { quit: false }, false), LoopAction::RedrawAfterInput);
    assert_eq!(decide(Polled::Input { quit: false }, true), LoopAction::RedrawAfterInput);
}

#[test]
fn a_timeout_ticks_only_a_ticking_app() {
    assert_eq!(decide(Polled::Timeout, true), LoopAction::TickAndRedraw);
    assert_eq!(decide(Polled::Timeout, false), LoopAction::Wait);
}

#[test]
fn idle_poll_is_a_quarter_second() {
    assert_eq!(IDLE_POLL_MILLIS, 250);
}

#[test]
fn a_resize_in_either_axis_forces_a_full_redraw() {
    assert!(!needs_full_redraw(80, 24, 80, 24));
    assert!(needs_full_redraw(81, 24, 80, 24));
    assert!(needs_full_redraw(80, 25, 80, 24));
}
