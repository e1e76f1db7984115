use std::time::Duration;
use ttui::input::{Event, InputBinder, KeyCode, KeyEvent, KeyEventKind, KeyModifiers, KeyPress};

fn press(code: KeyCode) -> Event {
    Event::Key(KeyEvent::new(code, KeyModifiers::none()))
}

fn press_with(code: KeyCode, modifiers: KeyModifiers) -> Event {
    Event::Key(KeyEvent::new(code, modifiers))
}

#[derive(Clone, Copy, PartialEq, Eq, Debug)]
enum TestAction {
    A,
    B,
    Chord,
}

fn gg() -> Vec<KeyPress> {
    vec![KeyPress::plain(KeyCode::Char('g')), KeyPress::plain(KeyCode::Char('g'))]
}

#[test]
fn single_key_binding_fires_on_first_matching_press() {
    let mut binder = InputBinder::new(Duration::from_secs(1));
    binder.bind(KeyPress::plain(KeyCode::Char('a')).into(), TestAction::A);
    assert_eq!(binder.feed(&press(KeyCode::Char('a'))), Some(TestAction::A));
}

#[test]
fn unmatched_key_returns_none() {
    let mut binder = InputBinder::<TestAction>::new(Duration::from_secs(1));
    binder.bind(KeyPress::plain(KeyCode::Char('a')).into(), TestAction::A);
    assert_eq!(binder.feed(&press(KeyCode::Char('z'))), None);
}

#[test]
fn non_key_events_are_ignored() {
    let mut binder = InputBinder::<TestAction>::new(Duration::from_secs(1));
    binder.bind(KeyPress::plain(KeyCode::Char('a')).into(), TestAction::A);
    assert_eq!(binder.feed(&Event::Resize(80, 24)), None);
}

#[test]
fn key_release_and_repeat_events_are_ignored() {
    let mut binder = InputBinder::new(Duration::from_secs(1));
    binder.bind(KeyPress::plain(KeyCode::Char('a')).into(), TestAction::A);
    let release = Event::Key(KeyEvent::new_with_kind(
        KeyCode::Char('a'),
        KeyModifiers::none(),
        KeyEventKind::Release,
    ));
    assert_eq!(binder.feed(&release), None);
    let repeat = Event::Key(KeyEvent::new_with_kind(
        KeyCode::Char('a'),
        KeyModifiers::none(),
        KeyEventKind::Repeat,
    ));
    assert_eq!(binder.feed(&repeat), None);
}

#[test]
fn two_key_chord_requires_both_keys_in_order() {
    let mut binder = InputBinder::new(Duration::from_secs(1));
    binder.bind(gg(), TestAction::Chord);
    assert_eq!(binder.feed(&press(KeyCode::Char('g'))), None, "partial chord doesn't fire early");
    assert_eq!(binder.feed(&press(KeyCode::Char('g'))), Some(TestAction::Chord));
}

#[test]
fn partial_chord_does_not_fire_early() {
    let mut binder = InputBinder::new(Duration::from_secs(1));
    binder.bind(
        vec![
            KeyPress::plain(KeyCode::Up),
            KeyPress::plain(KeyCode::Up),
            KeyPress::plain(KeyCode::Down),
        ],
        TestAction::Chord,
    );
    assert_eq!(binder.feed(&press(KeyCode::Up)), None);
    assert_eq!(binder.feed(&press(KeyCode::Up)), None, "still only 2 of 3 keys");
}

#[test]
fn abandoned_chord_prefix_falls_through_to_a_valid_single_key_binding() {
    let mut binder = InputBinder::new(Duration::from_secs(1));
    binder.bind(gg(), TestAction::Chord);
    binder.bind(KeyPress::plain(KeyCode::Char('q')).into(), TestAction::A);
    assert_eq!(binder.feed(&press(KeyCode::Char('g'))), None, "starts the gg chord");
    assert_eq!(
        binder.feed(&press(KeyCode::Char('q'))),
        Some(TestAction::A),
        "q breaks the chord but still fires its own binding, not swallowed"
    );
}

#[test]
fn dead_end_key_clears_pending_with_no_action() {
    let mut binder = InputBinder::new(Duration::from_secs(1));
    binder.bind(gg(), TestAction::Chord);
    assert_eq!(binder.feed(&press(KeyCode::Char('g'))), None, "starts the gg chord");
    assert_eq!(
        binder.feed(&press(KeyCode::Char('z'))),
        None,
        "z matches nothing, no prefix — dead end, no action fires"
    );
    assert!(binder.pending().is_empty());
    assert_eq!(binder.feed(&press(KeyCode::Char('g'))), None);
    assert_eq!(binder.feed(&press(KeyCode::Char('g'))), Some(TestAction::Chord));
}

#[test]
fn overlapping_prefix_chords_resolve_to_the_correct_one() {
    let mut binder = InputBinder::new(Duration::from_secs(1));
    binder.bind(gg(), TestAction::A);
    binder.bind(
        vec![KeyPress::plain(KeyCode::Char('g')), KeyPress::plain(KeyCode::Char('h'))],
        TestAction::B,
    );
    assert_eq!(binder.feed(&press(KeyCode::Char('g'))), None);
    assert_eq!(binder.feed(&press(KeyCode::Char('h'))), Some(TestAction::B));
    assert_eq!(binder.feed(&press(KeyCode::Char('g'))), None);
    assert_eq!(binder.feed(&press(KeyCode::Char('g'))), Some(TestAction::A));
}

#[test]
fn modifier_matching_uses_contains_not_exact_equality() {
    let mut binder = InputBinder::new(Duration::from_secs(1));
    binder.bind(KeyPress::plain(KeyCode::BackTab).into(), TestAction::A);
    assert_eq!(
        binder.feed(&press_with(KeyCode::BackTab, KeyModifiers::shift())),
        Some(TestAction::A)
    );

    let mut ctrl_binder = InputBinder::new(Duration::from_secs(1));
    ctrl_binder.bind(
        KeyPress { code: KeyCode::Char('c'), modifiers: KeyModifiers::control() }.into(),
        TestAction::A,
    );
    assert_eq!(ctrl_binder.feed(&press(KeyCode::Char('c'))), None);
    assert_eq!(
        ctrl_binder.feed(&press_with(KeyCode::Char('c'), KeyModifiers::control())),
        Some(TestAction::A)
    );
}

#[test]
fn expire_does_nothing_when_pending_is_empty() {
    let mut binder = InputBinder::<TestAction>::new(Duration::from_millis(100));
    binder.expire(Duration::from_secs(10));
    binder.bind(gg(), TestAction::Chord);
    assert_eq!(binder.feed(&press(KeyCode::Char('g'))), None);
    assert_eq!(binder.feed(&press(KeyCode::Char('g'))), Some(TestAction::Chord));
}

#[test]
fn expire_clears_a_stale_pending_chord_after_timeout() {
    let mut binder = InputBinder::new(Duration::from_millis(100));
    binder.bind(gg(), TestAction::Chord);
    assert_eq!(binder.feed(&press(KeyCode::Char('g'))), None, "starts the chord");
    binder.expire(Duration::from_millis(150));
    assert_eq!(
        binder.feed(&press(KeyCode::Char('g'))),
        None,
        "pending was cleared by the timeout, so this is a fresh first key"
    );
    assert_eq!(
        binder.feed(&press(KeyCode::Char('g'))),
        Some(TestAction::Chord),
        "a fresh gg from here still completes normally"
    );
}

#[test]
fn expire_does_not_clear_a_chord_still_within_timeout() {
    let mut binder = InputBinder::new(Duration::from_millis(100));
    binder.bind(gg(), TestAction::Chord);
    assert_eq!(binder.feed(&press(KeyCode::Char('g'))), None);
    binder.expire(Duration::from_millis(50));
    assert_eq!(
        binder.feed(&press(KeyCode::Char('g'))),
        Some(TestAction::Chord),
        "chord still completes — the first key's pending state survived"
    );
}

#[test]
fn expire_accumulates_across_calls_until_the_timeout() {
    let mut binder = InputBinder::new(Duration::from_millis(100));
    binder.bind(gg(), TestAction::Chord);
    assert_eq!(binder.feed(&press(KeyCode::Char('g'))), None);
    binder.expire(Duration::from_millis(60));
    assert_eq!(binder.pending().len(), 1);
    binder.expire(Duration::from_millis(40));
    assert!(binder.pending().is_empty(), "60 + 40 reaches the 100ms timeout");
}

#[test]
fn earlier_binding_wins_when_two_bind_the_same_key() {
    let mut binder = InputBinder::new(Duration::from_secs(1));
    binder.bind(KeyPress::plain(KeyCode::Esc).into(), TestAction::A);
    binder.bind(KeyPress::plain(KeyCode::Esc).into(), TestAction::B);
    assert_eq!(binder.feed(&press(KeyCode::Esc)), Some(TestAction::A));
}

#[test]
fn three_key_chord_completes_on_its_last_key() {
    let mut binder = InputBinder::new(Duration::from_secs(1));
    binder.bind(
        vec![
            KeyPress::plain(KeyCode::F(1)),
            KeyPress::plain(KeyCode::F(2)),
            KeyPress::plain(KeyCode::F(3)),
        ],
        TestAction::Chord,
    );
    assert_eq!(binder.feed(&press(KeyCode::F(1))), None);
    assert_eq!(binder.feed(&press(KeyCode::F(2))), None);
    assert_eq!(binder.pending().len(), 2);
    assert_eq!(binder.feed(&press(KeyCode::F(3))), Some(TestAction::Chord));
    assert!(binder.pending().is_empty());
}

#[test]
fn modifier_bits_contain_only_their_subsets() {
    let both = KeyModifiers::from_bits(KeyModifiers::shift().bits() | KeyModifiers::control().bits());
    assert!(both.contains(KeyModifiers::shift()));
    assert!(both.contains(KeyModifiers::control()));
    assert!(both.contains(KeyModifiers::none()));
    assert!(!KeyModifiers::shift().contains(both));
    assert_eq!(KeyModifiers::alt().bits(), 4);
    assert_eq!(KeyModifiers::meta().bits(), 32);
}
