//! `AudioSink`: the hook apps implement for optional sound-effect
//! playback.
use vstd::prelude::*;

verus! {

/// Plays named sound events; apps supply their own implementation.
pub trait AudioSink {
    /// Plays the event called `event_id`.
    fn play(&mut self, event_id: &str);
}

/// A sink that plays nothing.
pub struct NullAudioSink;

impl AudioSink for NullAudioSink {
    /// Does nothing.
    fn play(&mut self, event_id: &str) {
    }
}

} // verus!
