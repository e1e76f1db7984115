use ttui::audio::{AudioSink, NullAudioSink};
use ttui::buffer::{CellStyle, Intensity};
use ttui::theme::BorderSet;

#[test]
fn test_null_audio_sink_play_does_not_panic() {
    let mut sink = NullAudioSink;
    sink.play("test_event");
}

#[test]
fn test_audio_sink_trait_is_implementable_and_records_calls() {
    struct RecordingAudioSink {
        calls: Vec<String>,
    }

    impl AudioSink for RecordingAudioSink {
        fn play(&mut self, event_id: &str) {
            self.calls.push(event_id.to_string());
        }
    }

    let mut sink = RecordingAudioSink { calls: Vec::new() };
    sink.play("event_1");
    sink.play("event_2");
    assert_eq!(sink.calls.len(), 2);
    assert_eq!(sink.calls[0], "event_1");
    assert_eq!(sink.calls[1], "event_2");
}

#[test]
fn test_audio_sink_trait_object_safety() {
    let mut sink: Box<dyn AudioSink> = Box::new(NullAudioSink);
    sink.play("test_event");
}

#[test]
fn intensity_default_is_normal() {
    assert_eq!(Intensity::default(), Intensity::Normal);
}

#[test]
fn cell_style_default_intensity_is_normal() {
    assert_eq!(CellStyle::default().intensity, Intensity::Normal);
}

#[test]
fn cell_style_default_sets_no_flags() {
    let s = CellStyle::default();
    assert!(!s.underline && !s.italic && !s.reverse && !s.strikethrough);
}

#[test]
fn bold_dim_and_normal_are_pairwise_distinct() {
    assert_ne!(Intensity::Normal, Intensity::Bold);
    assert_ne!(Intensity::Bold, Intensity::Dim);
    assert_ne!(Intensity::Normal, Intensity::Dim);
}

#[test]
fn single_line_uses_real_box_drawing_glyphs() {
    let b = BorderSet::single_line();
    assert_eq!(b.horizontal, '─');
    assert_eq!(b.vertical, '│');
    assert_eq!(b.top_left, '┌');
    assert_eq!(b.top_right, '┐');
    assert_eq!(b.bottom_left, '└');
    assert_eq!(b.bottom_right, '┘');
}

#[test]
fn ascii_uses_a_plus_at_every_corner() {
    let b = BorderSet::ascii();
    assert_eq!(b.horizontal, '-');
    assert_eq!(b.vertical, '|');
    assert_eq!(b.top_left, '+');
    assert_eq!(b.top_right, '+');
    assert_eq!(b.bottom_left, '+');
    assert_eq!(b.bottom_right, '+');
}

#[test]
fn default_matches_single_line() {
    assert_eq!(BorderSet::default(), BorderSet::single_line());
}
