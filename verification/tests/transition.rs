use std::time::Duration;
use ttui::transition::Transition;

#[test]
fn is_complete_becomes_true_after_duration() {
    let mut transition = Transition::start(Duration::from_millis(100));
    assert!(!transition.is_complete());
    transition.tick(Duration::from_millis(100));
    assert!(transition.is_complete());
}

#[test]
fn zero_duration_is_immediately_complete() {
    let transition = Transition::start(Duration::ZERO);
    assert!(transition.is_complete());
    assert_eq!(transition.duration_nanos(), 0);
}

#[test]
fn tick_accumulates_across_multiple_calls() {
    let mut transition = Transition::start(Duration::from_secs(1));
    transition.tick(Duration::from_millis(250));
    transition.tick(Duration::from_millis(250));
    assert_eq!(transition.elapsed_nanos(), 500_000_000);
    assert!(!transition.is_complete());
}

#[test]
fn tick_clamps_elapsed_at_the_duration() {
    let mut transition = Transition::start(Duration::from_millis(100));
    transition.tick(Duration::from_millis(200));
    assert_eq!(transition.elapsed_nanos(), 100_000_000);
    assert_eq!(transition.duration_nanos(), 100_000_000);
    assert!(transition.is_complete());
}

#[test]
fn tick_near_the_largest_duration_does_not_overflow() {
    let mut transition = Transition::start(Duration::MAX);
    transition.tick(Duration::MAX);
    assert!(transition.is_complete());
    let mut t = Transition::start_nanos(10);
    t.tick_nanos(u128::MAX);
    assert_eq!(t.elapsed_nanos(), 10);
}

#[test]
fn transitions_start_at_zero_elapsed() {
    let transition = Transition::start(Duration::from_secs(1));
    assert_eq!(transition.elapsed_nanos(), 0);
    assert_eq!(transition.duration_nanos(), 1_000_000_000);
    assert!(!transition.is_complete());
}
