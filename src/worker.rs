//! The decisions of a generator worker.
//!
//! A worker produces challenges forever. After a challenge is generated its
//! answer is registered; while the buffer of ready challenges is full, the
//! worker warms pending thumbnails; then it pushes the challenge, waiting for
//! room. A failed generation is retried after a pause. The program around the
//! library performs each action and reports what came of it.
use vstd::prelude::*;

verus! {

/// How long a worker pauses after a failed generation, in milliseconds.
pub const BACKOFF_MILLIS: u64 = 1000;

/// What a worker does next.
#[derive(Debug, Clone, Copy, PartialEq, Eq, Structural)]
pub enum WorkerAction {
    /// Draw, render and assemble a challenge.
    Generate,
    /// Register the generated challenge's answer, then report whether the
    /// buffer is full.
    Register,
    /// Take one pending thumbnail, if any, and generate it.
    WarmThumbnail,
    /// Push the generated challenge, waiting for room.
    Push,
    /// Pause before generating again.
    Backoff { millis: u64 },
}

/// What came of a worker's last action.
#[derive(Debug, Clone, Copy, PartialEq, Eq, Structural)]
pub enum WorkerEvent {
    Generated,
    GenerationFailed,
    Registered { buffer_full: bool },
    /// A pending thumbnail was taken and generated (or failed to be).
    Warmed { buffer_full: bool },
    /// No thumbnail was pending.
    NothingToWarm,
    Pushed,
    BackedOff,
}

/// The action that follows an event.
pub open spec fn next_action_spec(e: WorkerEvent) -> WorkerAction {
    match e {
        WorkerEvent::Generated => WorkerAction::Register,
        WorkerEvent::GenerationFailed => WorkerAction::Backoff { millis: BACKOFF_MILLIS },
        WorkerEvent::Registered { buffer_full } => if buffer_full {
            WorkerAction::WarmThumbnail
        } else {
            WorkerAction::Push
        },
        WorkerEvent::Warmed { buffer_full } => if buffer_full {
            WorkerAction::WarmThumbnail
        } else {
            WorkerAction::Push
        },
        WorkerEvent::NothingToWarm => WorkerAction::Push,
        WorkerEvent::Pushed => WorkerAction::Generate,
        WorkerEvent::BackedOff => WorkerAction::Generate,
    }
}

/// The action a worker takes first.
pub fn first_action() -> (r: WorkerAction)
    ensures
        r == WorkerAction::Generate,
{
    WorkerAction::Generate
}

/// The action that follows `event`: register a generated challenge; warm
/// thumbnails while the buffer is full and some are pending; then push; pause
/// after a failure; and generate again.
pub fn next_action(event: WorkerEvent) -> (r: WorkerAction)
    ensures
        r == next_action_spec(event),
{
    match event {
        WorkerEvent::Generated => WorkerAction::Register,
        WorkerEvent::GenerationFailed => WorkerAction::Backoff { millis: BACKOFF_MILLIS },
        WorkerEvent::Registered { buffer_full } => {
            if buffer_full {
                WorkerAction::WarmThumbnail
            } else {
                WorkerAction::Push
            }
        },
        WorkerEvent::Warmed { buffer_full } => {
            if buffer_full {
                WorkerAction::WarmThumbnail
            } else {
                WorkerAction::Push
            }
        },
        WorkerEvent::NothingToWarm => WorkerAction::Push,
        WorkerEvent::Pushed => WorkerAction::Generate,
        WorkerEvent::BackedOff => WorkerAction::Generate,
    }
}

} // verus!
