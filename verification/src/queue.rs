//! The dispatch items that flow from event matching to the move executor,
//! and the outcome messages the executor reports.

use vstd::prelude::*;

use crate::path::FsPath;

verus! {

/// One unit of work produced by event matching: either a resolved move
/// instruction or a terminal report. Consumed exactly once, never retried.
pub enum QueueTask {
    /// Move `src` to `dest` under the collision-safe default semantics.
    Move { src: FsPath, dest: FsPath },
    /// Informational path report; nothing is moved.
    Path(FsPath),
    /// Informational message.
    Info(String),
    /// Terminal success message.
    Done(String),
    /// Terminal failure message.
    Failed(String),
    /// Nothing to do for this event and task.
    Skip,
}

/// One line of process-facing output, or silence for a no-op item.
pub enum Msg {
    Quiet,
    Text(String),
}

} // verus!
