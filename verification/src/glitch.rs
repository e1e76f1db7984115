//! The state and the noise of a decaying glitch overlay: trigger it,
//! tick it each frame, and while it is active, each cell of the overlay
//! gets a deterministic roll and block glyph. How dense the noise is at
//! a given moment (the remaining intensity, a fraction) is the caller's.
use vstd::prelude::*;
use crate::time::{duration_as_nanos, duration_nanos, MAX_DURATION_NANOS};
use crate::transition::{Transition, TransitionView};

verus! {

/// Whether a glitch is running, and how far it has decayed.
pub struct GlitchState {
    transition: Option<Transition>,
}

impl View for GlitchState {
    type V = Option<TransitionView>;

    closed spec fn view(&self) -> Option<TransitionView> {
        match self.transition {
            Some(t) => Some(t@),
            None => None,
        }
    }
}

/// The state after ticking `s` by `by` nanoseconds: an inactive glitch
/// stays inactive; an active one decays, and ends once complete.
pub open spec fn ticked(s: Option<TransitionView>, by: nat) -> Option<TransitionView> {
    match s {
        None => None,
        Some(t) => if t.tick(by).is_complete() {
            None
        } else {
            Some(t.tick(by))
        },
    }
}

impl GlitchState {
    /// Creates an inactive glitch.
    pub fn new() -> (r: Self)
        ensures
            r@ is None,
    {
        GlitchState { transition: None }
    }

    /// Starts (or restarts) the glitch, decaying over `duration`.
    pub fn trigger(&mut self, duration: std::time::Duration)
        ensures
            final(self)@ == Some(TransitionView { duration: duration_as_nanos(duration) as nat, elapsed: 0 }),
            final(self)@ matches Some(t) && t.duration <= MAX_DURATION_NANOS,
    {
        self.trigger_nanos(duration_nanos(duration));
    }

    /// Starts (or restarts) the glitch, decaying over `duration`
    /// nanoseconds.
    pub fn trigger_nanos(&mut self, duration: u128)
        ensures
            final(self)@ == Some(TransitionView { duration: duration as nat, elapsed: 0 }),
    {
        self.transition = Some(Transition::start_nanos(duration));
    }

    /// Advances the decay by `elapsed`; deactivates once complete.
    pub fn tick(&mut self, elapsed: std::time::Duration)
        ensures
            final(self)@ == ticked(old(self)@, duration_as_nanos(elapsed) as nat),
    {
        let by = duration_nanos(elapsed);
        self.tick_nanos(by);
    }

    /// Advances the decay by `by` nanoseconds; deactivates once
    /// complete.
    pub fn tick_nanos(&mut self, by: u128)
        ensures
            final(self)@ == ticked(old(self)@, by as nat),
    {
        match self.transition {
            Some(t) => {
                let mut t = t;
                t.tick_nanos(by);
                if t.is_complete() {
                    self.transition = None;
                } else {
                    self.transition = Some(t);
                }
            },
            None => {},
        }
    }

    /// Ends the glitch immediately, regardless of remaining duration.
    pub fn clear(&mut self)
        ensures
            final(self)@ is None,
    {
        self.transition = None;
    }

    /// Whether the glitch is currently decaying (so should be drawn).
    pub fn is_active(&self) -> (r: bool)
        ensures
            r == self@ is Some,
    {
        self.transition.is_some()
    }

    /// The running decay, if any.
    pub fn transition(&self) -> (r: Option<Transition>)
        ensures
            match r {
                Some(t) => self@ == Some(t@),
                None => self@ is None,
            },
    {
        self.transition
    }
}

/// Law: a running glitch ends exactly when the ticks reach its
/// duration — ticking by less leaves it active, by at least the time
/// left ends it.
pub proof fn lemma_glitch_ends_when_decayed(t: TransitionView, by: nat)
    requires
        t.valid(),
    ensures
        ticked(Some(t), by) is None <==> t.elapsed + by >= t.duration,
{
}

/// The overlay's noise hash of cell (`x`, `y`) on frame `tick`: each
/// coordinate and the frame multiplied (wrapping) by its own constant,
/// all three XORed together.
pub open spec fn noise_hash(x: u16, y: u16, tick: u64) -> u64 {
    (((x as nat * 374_761_393) % 0x1_0000_0000_0000_0000) as u64) ^ (((y as nat * 668_265_263)
        % 0x1_0000_0000_0000_0000) as u64) ^ (((tick as nat * 2_246_822_519)
        % 0x1_0000_0000_0000_0000) as u64)
}

/// The block glyph a hash picks: `░`, `▒`, `▓` or `█`, by its
/// thousands digit modulo 4.
pub open spec fn noise_glyph_of(h: u64) -> char {
    let k = (h / 1000) % 4;
    if k == 0 {
        '░'
    } else if k == 1 {
        '▒'
    } else if k == 2 {
        '▓'
    } else {
        '█'
    }
}

/// The noise of cell (`x`, `y`) on frame `tick`: its roll in
/// thousandths (the cell shows noise while the roll, as a fraction, is
/// below the remaining intensity), and the glyph it shows.
pub fn noise_at(x: u16, y: u16, tick: u64) -> (r: (u64, char))
    ensures
        r.0 == noise_hash(x, y, tick) % 1000,
        r.1 == noise_glyph_of(noise_hash(x, y, tick)),
        r.0 < 1000,
{
    let h = (x as u64).wrapping_mul(374_761_393) ^ (y as u64).wrapping_mul(668_265_263)
        ^ tick.wrapping_mul(2_246_822_519);
    let k = h / 1000 % 4;
    let glyph = if k == 0 {
        '░'
    } else if k == 1 {
        '▒'
    } else if k == 2 {
        '▓'
    } else {
        '█'
    };
    (h % 1000, glyph)
}

} // verus!
