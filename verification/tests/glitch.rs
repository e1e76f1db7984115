use std::time::Duration;
use ttui::glitch::{noise_at, GlitchState};

#[test]
fn trigger_makes_is_active_true() {
    let mut gb = GlitchState::new();
    assert!(!gb.is_active());
    gb.trigger(Duration::from_millis(500));
    assert!(gb.is_active());
}

#[test]
fn ticking_past_the_triggered_duration_deactivates_it() {
    let mut gb = GlitchState::new();
    gb.trigger(Duration::from_millis(500));
    gb.tick(Duration::from_millis(600));
    assert!(!gb.is_active());
    assert!(gb.transition().is_none());
}

#[test]
fn clear_deactivates_immediately_regardless_of_remaining_duration() {
    let mut gb = GlitchState::new();
    gb.trigger(Duration::from_millis(600));
    assert!(gb.is_active());
    gb.clear();
    assert!(!gb.is_active());
}

#[test]
fn ticking_short_of_the_duration_keeps_it_running_and_records_the_decay() {
    let mut gb = GlitchState::new();
    gb.trigger_nanos(1_000);
    gb.tick_nanos(400);
    assert!(gb.is_active());
    let t = gb.transition().unwrap();
    assert_eq!(t.elapsed_nanos(), 400);
    assert_eq!(t.duration_nanos(), 1_000);
    gb.tick_nanos(600);
    assert!(!gb.is_active());
}

#[test]
fn ticking_an_inactive_glitch_leaves_it_inactive() {
    let mut gb = GlitchState::new();
    gb.tick(Duration::from_millis(10));
    assert!(!gb.is_active());
}

#[test]
fn noise_matches_the_hash_written_out() {
    for (x, y, tick) in [(0u16, 0u16, 0u64), (1, 2, 3), (65535, 7, u64::MAX), (40, 40, 123456)] {
        let h = (x as u64).wrapping_mul(374_761_393)
            ^ (y as u64).wrapping_mul(668_265_263)
            ^ tick.wrapping_mul(2_246_822_519);
        let glyphs = ['░', '▒', '▓', '█'];
        assert_eq!(noise_at(x, y, tick), (h % 1000, glyphs[(h / 1000 % 4) as usize]));
    }
}

#[test]
fn the_origin_on_frame_zero_rolls_zero_with_the_lightest_shade() {
    assert_eq!(noise_at(0, 0, 0), (0, '░'));
}
