//! Model of the filesystem event kinds the pipeline reacts to, and the
//! event predicates a `Task` can be configured with.

use vstd::prelude::*;

verus! {

/// How a path was renamed, as reported by the event source.
#[derive(Clone, Copy, Debug, PartialEq, Eq, Structural)]
pub enum RenameMode {
    Any,
    To,
    From,
    Both,
    Other,
}

/// What aspect of a file a modification event touched.
#[derive(Clone, Copy, Debug, PartialEq, Eq, Structural)]
pub enum ModifyKind {
    Any,
    Data,
    Metadata,
    Name(RenameMode),
    Other,
}

/// The kind of a debounced filesystem event.
#[derive(Clone, Copy, Debug, PartialEq, Eq, Structural)]
pub enum EventKind {
    Any,
    Access,
    Create,
    Modify(ModifyKind),
    Remove,
    Other,
}

/// Whether the event's path is currently a file, a directory, or gone.
#[derive(Clone, Copy, Debug, PartialEq, Eq, Structural)]
pub enum EntityStatus {
    File,
    Dir,
    Missing,
}

/// The event predicate a task filters events with. The previous event kind
/// recorded for the same file stem is offered alongside the current kind,
/// so a predicate may distinguish rename sequences from independent events;
/// the built-in predicates decide on the current kind alone.
#[derive(Clone, Copy, Debug, PartialEq, Eq, Structural)]
pub enum EventFilter {
    /// Matches any modification event.
    Modified,
    /// Matches any creation event.
    Created,
    /// Matches a rename that gave the path its current name.
    Renamed,
}

impl EventFilter {
    /// What the predicate holds of an event kind and the buffered previous
    /// kind for the same stem.
    pub open spec fn spec_matches(self, kind: EventKind, prev: Option<EventKind>) -> bool {
        match self {
            EventFilter::Modified => kind is Modify,
            EventFilter::Created => kind is Create,
            EventFilter::Renamed => kind == EventKind::Modify(ModifyKind::Name(RenameMode::To))
                || kind == EventKind::Modify(ModifyKind::Name(RenameMode::Both)),
        }
    }

    /// Evaluates the predicate on an event kind and the previous kind
    /// recorded for the same file stem.
    pub fn matches(&self, kind: EventKind, prev: Option<EventKind>) -> (r: bool)
        ensures
            r == self.spec_matches(kind, prev),
    {
        match self {
            EventFilter::Modified => matches!(kind, EventKind::Modify(_)),
            EventFilter::Created => matches!(kind, EventKind::Create),
            EventFilter::Renamed => match kind {
                EventKind::Modify(ModifyKind::Name(RenameMode::To)) => true,
                EventKind::Modify(ModifyKind::Name(RenameMode::Both)) => true,
                _ => false,
            },
        }
    }
}

} // verus!
