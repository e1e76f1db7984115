//! Snapshot scripts: a flat list of waits and key presses, and what
//! driving a captured app through one step does. Reading the script
//! file, sleeping, sending bytes and capturing frames are the caller's.
use vstd::prelude::*;
use crate::snapshot::keys::{KeyEncodeError, encode_key, key_bytes};
use crate::text::push_chars;

verus! {

/// One step of a snapshot script.
#[derive(Debug, Clone, PartialEq, Eq)]
pub enum Step {
    /// Let `wait_ms` milliseconds of wall-clock time pass.
    Wait { wait_ms: u64 },
    /// Press the named key (see the key encoder for the names).
    Key { key: String },
}

/// How long the frame captured after a key step is shown in an
/// animation, in milliseconds.
pub const KEY_STEP_DISPLAY_MILLIS: u64 = 150;

/// What running one step does before the next frame is captured.
#[derive(Debug, Clone, PartialEq, Eq)]
pub enum StepAction {
    /// Sleep `millis` milliseconds; the frame after it is shown as long.
    Sleep { millis: u64 },
    /// Send `bytes` to the app's input; the frame after it is shown for
    /// `KEY_STEP_DISPLAY_MILLIS`.
    Send { bytes: Vec<u8> },
}

/// The message a script with an unknown key name fails with.
pub open spec fn unknown_key_message(name: Seq<char>) -> Seq<char> {
    seq!['u', 'n', 'k', 'n', 'o', 'w', 'n', ' ', 'k', 'e', 'y', ' ', 'n', 'a', 'm', 'e', ':', ' ']
        + name
}

/// What running a step does: a wait sleeps for its length; a key sends
/// the key's bytes, or fails naming the key when it has none.
pub fn plan_step(step: &Step) -> (r: Result<StepAction, String>)
    ensures
        match step {
            Step::Wait { wait_ms } => r == Ok::<StepAction, String>(
                StepAction::Sleep { millis: *wait_ms },
            ),
            Step::Key { key } => match key_bytes(key@) {
                Some(b) => r matches Ok(StepAction::Send { bytes }) && bytes@ == b,
                None => r matches Err(m) && m@ == unknown_key_message(key@),
            },
        },
{
    match step {
        Step::Wait { wait_ms } => Ok(StepAction::Sleep { millis: *wait_ms }),
        Step::Key { key } => match encode_key(key.as_str()) {
            Ok(bytes) => Ok(StepAction::Send { bytes }),
            Err(KeyEncodeError::Unknown(k)) => {
                let mut m = String::new();
                push_chars(&mut m, "unknown key name: ");
                push_chars(&mut m, k.as_str());
                proof {
                    reveal_strlit("unknown key name: ");
                }
                assert(m@ =~= unknown_key_message(key@));
                Err(m)
            },
        },
    }
}

/// How long the frame captured after an action is shown, in
/// milliseconds: a sleep's own length, a key press's fixed display time.
pub fn frame_millis(action: &StepAction) -> (r: u64)
    ensures
        r == match action {
            StepAction::Sleep { millis } => *millis,
            StepAction::Send { .. } => KEY_STEP_DISPLAY_MILLIS,
        },
{
    match action {
        StepAction::Sleep { millis } => *millis,
        StepAction::Send { .. } => KEY_STEP_DISPLAY_MILLIS,
    }
}

} // verus!
