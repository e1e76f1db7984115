//! The decisions of the terminal event loop: after each poll for input,
//! whether to quit, tick, redraw or keep waiting, and when a redraw must
//! repaint every cell. Polling, timing, drawing and the app's own
//! callbacks are the caller's.
use vstd::prelude::*;

verus! {

/// How long the loop waits for input when the app does not tick.
pub const IDLE_POLL_MILLIS: u64 = 250;

/// What one poll for input came back with.
#[derive(Clone, Copy, Debug, PartialEq, Eq, Structural)]
pub enum Polled {
    /// An input event arrived and the app handled it; `quit` is whether
    /// the app then asked to stop.
    Input { quit: bool },
    /// The poll timed out with no input.
    Timeout,
}

/// What the loop does next.
#[derive(Clone, Copy, Debug, PartialEq, Eq, Structural)]
pub enum LoopAction {
    /// Leave the loop.
    Quit,
    /// Redraw after input, restarting the tick clock so the next tick
    /// does not report the time spent typing.
    RedrawAfterInput,
    /// Tick the app with the time since the last tick or input, restart
    /// the tick clock, and redraw.
    TickAndRedraw,
    /// Do nothing; poll again.
    Wait,
}

/// The loop's decision after a poll: quit when the app asked to; redraw
/// after any other input; on a timeout, tick and redraw when the app
/// ticks, else keep waiting — without ticking, a redraw only ever
/// follows input.
pub open spec fn decision(polled: Polled, ticking: bool) -> LoopAction {
    match polled {
        Polled::Input { quit } => if quit {
            LoopAction::Quit
        } else {
            LoopAction::RedrawAfterInput
        },
        Polled::Timeout => if ticking {
            LoopAction::TickAndRedraw
        } else {
            LoopAction::Wait
        },
    }
}

/// Decides what the loop does after a poll; `ticking` is whether the app
/// has a tick rate.
pub fn decide(polled: Polled, ticking: bool) -> (r: LoopAction)
    ensures
        r == decision(polled, ticking),
{
    match polled {
        Polled::Input { quit } => if quit {
            LoopAction::Quit
        } else {
            LoopAction::RedrawAfterInput
        },
        Polled::Timeout => if ticking {
            LoopAction::TickAndRedraw
        } else {
            LoopAction::Wait
        },
    }
}

/// Whether a redraw must repaint every cell: the terminal's size is no
/// longer that of the last frame drawn.
pub fn needs_full_redraw(width: u16, height: u16, prev_width: u16, prev_height: u16) -> (r: bool)
    ensures
        r == (width != prev_width || height != prev_height),
{
    width != prev_width || height != prev_height
}

} // verus!
