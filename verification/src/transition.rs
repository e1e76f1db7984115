//! Time-driven progress tracking for animations: apps own a
//! `Transition` per animated value, `tick` it each frame, and read its
//! progress to drive rendering.
use vstd::prelude::*;
use crate::time::{duration_as_nanos, duration_nanos, MAX_DURATION_NANOS};

verus! {

/// Tracks elapsed time against a fixed duration, both in nanoseconds.
#[derive(Clone, Copy, Debug, PartialEq, Eq, Structural)]
pub struct Transition {
    duration: u128,
    elapsed: u128,
}

/// The state of a `Transition`, in nanoseconds.
pub struct TransitionView {
    pub duration: nat,
    pub elapsed: nat,
}

/// `a` or `b`, whichever is smaller.
pub open spec fn min_nat(a: nat, b: nat) -> nat {
    if a <= b {
        a
    } else {
        b
    }
}

impl TransitionView {
    /// Elapsed time never runs past the duration.
    pub open spec fn valid(self) -> bool {
        self.elapsed <= self.duration
    }

    /// Advancing by `by` nanoseconds, clamped to the duration.
    pub open spec fn tick(self, by: nat) -> TransitionView {
        TransitionView { elapsed: min_nat(self.elapsed + by, self.duration), ..self }
    }

    /// Elapsed time has reached the duration.
    pub open spec fn is_complete(self) -> bool {
        self.elapsed >= self.duration
    }
}

impl View for Transition {
    type V = TransitionView;

    closed spec fn view(&self) -> TransitionView {
        TransitionView { duration: self.duration as nat, elapsed: self.elapsed as nat }
    }
}

impl Transition {
    #[verifier::type_invariant]
    spec fn elapsed_within_duration(self) -> bool {
        self.elapsed <= self.duration
    }

    /// Starts a transition that completes after `duration`: its
    /// duration is the nanosecond count of `duration`, nothing elapsed.
    pub fn start(duration: std::time::Duration) -> (r: Self)
        ensures
            r@ == (TransitionView { duration: duration_as_nanos(duration) as nat, elapsed: 0 }),
            r@.duration <= MAX_DURATION_NANOS,
    {
        Self::start_nanos(duration_nanos(duration))
    }

    /// Starts a transition that completes after `duration` nanoseconds.
    pub fn start_nanos(duration: u128) -> (r: Self)
        ensures
            r@ == (TransitionView { duration: duration as nat, elapsed: 0 }),
    {
        Transition { duration, elapsed: 0 }
    }

    /// Advances elapsed time by `elapsed`, clamped to the duration.
    pub fn tick(&mut self, elapsed: std::time::Duration)
        ensures
            final(self)@ == old(self)@.tick(duration_as_nanos(elapsed) as nat),
            final(self)@.valid(),
    {
        self.tick_nanos(duration_nanos(elapsed));
    }

    /// Advances elapsed time by `by` nanoseconds, clamped to the
    /// duration.
    pub fn tick_nanos(&mut self, by: u128)
        ensures
            final(self)@ == old(self)@.tick(by as nat),
            final(self)@.valid(),
    {
        proof {
            use_type_invariant(&*self);
        }
        if by >= self.duration - self.elapsed {
            self.elapsed = self.duration;
        } else {
            self.elapsed = self.elapsed + by;
        }
    }

    /// Whether elapsed time has reached the duration.
    pub fn is_complete(&self) -> (r: bool)
        ensures
            r == self@.is_complete(),
    {
        self.elapsed >= self.duration
    }

    /// The duration, in nanoseconds.
    pub fn duration_nanos(&self) -> (r: u128)
        ensures
            r == self@.duration,
    {
        self.duration
    }

    /// The elapsed time, in nanoseconds; never more than the duration.
    pub fn elapsed_nanos(&self) -> (r: u128)
        ensures
            r == self@.elapsed,
            r <= self@.duration,
    {
        proof {
            use_type_invariant(self);
        }
        self.elapsed
    }
}

/// Law: ticks accumulate — ticking by `a` then by `b` lands where one
/// tick by `a + b` does.
pub proof fn lemma_ticks_accumulate(t: TransitionView, a: nat, b: nat)
    requires
        t.valid(),
    ensures
        t.tick(a).tick(b) == t.tick(a + b),
{
}

/// Law: elapsed time never decreases and never passes the duration, and
/// once complete a transition stays complete.
pub proof fn lemma_tick_is_monotone_and_clamped(t: TransitionView, by: nat)
    requires
        t.valid(),
    ensures
        t.elapsed <= t.tick(by).elapsed <= t.duration,
        t.tick(by).duration == t.duration,
        t.is_complete() ==> t.tick(by).is_complete(),
{
}

/// Law: a transition is complete once the time ticked since its start
/// reaches its duration — and not before; a zero-length one is complete
/// from the start.
pub proof fn lemma_complete_exactly_when_duration_reached(duration: nat, by: nat)
    ensures
        (TransitionView { duration, elapsed: 0 }).tick(by).is_complete() == (by >= duration),
        (TransitionView { duration: 0, elapsed: 0 }).is_complete(),
{
}

/// The state after ticking `t` by each of `bys` in turn.
pub open spec fn ticked_by(t: TransitionView, bys: Seq<nat>) -> TransitionView
    decreases bys.len(),
{
    if bys.len() == 0 {
        t
    } else {
        ticked_by(t, bys.drop_last()).tick(bys.last())
    }
}

/// The sum of `bys`.
pub open spec fn sum_nat(bys: Seq<nat>) -> nat
    decreases bys.len(),
{
    if bys.len() == 0 {
        0
    } else {
        sum_nat(bys.drop_last()) + bys.last()
    }
}

/// Law: a run of ticks lands where one tick by their sum does.
pub proof fn lemma_run_of_ticks(t: TransitionView, bys: Seq<nat>)
    requires
        t.valid(),
    ensures
        ticked_by(t, bys) == t.tick(sum_nat(bys)),
    decreases bys.len(),
{
    if bys.len() > 0 {
        lemma_run_of_ticks(t, bys.drop_last());
        lemma_ticks_accumulate(t, sum_nat(bys.drop_last()), bys.last());
    }
}

/// Law: a transition started with duration `duration` and ticked by each
/// of `bys` in turn is complete exactly when their sum reaches the
/// duration.
pub proof fn lemma_complete_after_run(duration: nat, bys: Seq<nat>)
    ensures
        ticked_by(TransitionView { duration, elapsed: 0 }, bys).is_complete() == (sum_nat(bys)
            >= duration),
{
    lemma_run_of_ticks(TransitionView { duration, elapsed: 0 }, bys);
}

} // verus!
