//! Tasks and rulesets: one task is a named watch-and-move rule — an
//! entity-kind filter, an event predicate, an optional path pattern, a
//! destination, and an optional resolver — and a ruleset binds the tasks
//! of one watched root together with that root's watch configuration.

use vstd::prelude::*;

use crate::buffer::{find_key, Buffer};
use crate::events::{EntityStatus, EventFilter, EventKind};
use crate::path::{spec_has_partial_ext, spec_resolve, spec_stem, FsPath};
use crate::pattern::{pattern_is_valid, pattern_matches, regex_match, regex_valid};
use crate::queue::QueueTask;

verus! {

/// A pluggable resolver capability: invoked with the candidate source and
/// the computed destination, it may override the destination, emit a
/// report, accept the default move, or suppress the item. Nothing is
/// assumed of an implementation; the pipeline's guarantees hold for every
/// verdict it may return.
pub trait Module: Send + Sync + 'static {
    fn resolve(&mut self, src: FsPath, dest: FsPath) -> Resolved;
}

/// A resolver's verdict.
pub enum Resolved {
    /// Override the destination, then fall through to the default move.
    Move { dest: FsPath },
    /// Informational path report; no move.
    Path(FsPath),
    /// Informational message; no move.
    Info(String),
    /// Terminal success message; no move.
    Done(String),
    /// Terminal failure message; no move.
    Failed(String),
    /// Accept the computed destination and proceed with the default move.
    Continue,
    /// Take no action.
    Skip,
}

/// Which entity kinds a task reacts to.
#[derive(Clone, Copy, Debug, PartialEq, Eq, Structural)]
pub enum WatchingKind {
    Files,
    Dirs,
    All,
}

/// Whether a watched root is observed recursively.
#[derive(Clone, Copy, Debug, PartialEq, Eq, Structural)]
pub enum RecursiveMode {
    NonRecursive,
    Recursive,
}

/// The configuration errors the builders reject, and the per-root setup
/// failure surfaced when a watched root does not exist.
#[derive(Clone, Copy, Debug, PartialEq, Eq, Structural)]
pub enum ConfigError {
    /// A task was sealed without an event predicate.
    MissingEventCheck,
    /// A path-match pattern does not compile.
    BadPattern,
    /// A watched root ends in an asterisk component; recursion is
    /// configured by `recursive_mode`, not by globbing.
    AsteriskInPath,
    /// A watched root is not an absolute path.
    RootNotAbsolute,
    /// A watched root does not exist at watch time.
    RootNotFound,
}

/// One watch-and-action rule.
pub struct Task {
    pub label: Option<String>,
    /// Which entity kinds the task reacts to.
    pub watched_types: WatchingKind,
    /// The event predicate; a task without one is rejected at `add`.
    pub event_check: Option<EventFilter>,
    /// Destination, possibly relative; resolved against the owning root
    /// at `add` time, never at match time.
    pub destination: Option<FsPath>,
    /// Source of the path-match pattern, validated at configuration time.
    pub match_pattern: Option<String>,
    /// The bound resolver, if any.
    pub resolver: Option<Box<dyn Module>>,
}

impl Task {
    /// A valid pattern, and a well-formed destination, wherever present.
    pub open spec fn wf(&self) -> bool {
        &&& match self.match_pattern {
            Some(p) => regex_valid(p@),
            None => true,
        }
        &&& match self.destination {
            Some(d) => d.wf(),
            None => true,
        }
    }

    /// The task's settings apart from its resolver, which has no stated
    /// model of its own.
    pub open spec fn same_config(&self, other: &Task) -> bool {
        &&& self.label == other.label
        &&& self.watched_types == other.watched_types
        &&& self.event_check == other.event_check
        &&& self.destination == other.destination
        &&& self.match_pattern == other.match_pattern
    }

    /// Whether the task considers an event at all: the entity-kind filter
    /// accepts the path's status and the event predicate accepts the kind.
    pub open spec fn spec_considers(
        &self,
        status: EntityStatus,
        kind: EventKind,
        prev: Option<EventKind>,
    ) -> bool {
        &&& match self.watched_types {
            WatchingKind::Files => status is File,
            WatchingKind::Dirs => status is Dir,
            WatchingKind::All => true,
        }
        &&& match self.event_check {
            Some(f) => f.spec_matches(kind, prev),
            None => false,
        }
    }

    /// Whether dispatch is suppressed for a considered event: the path is
    /// gone, it carries the partial-download marker on a platform that
    /// suppresses those, or the path pattern does not match.
    pub open spec fn spec_suppresses(
        &self,
        src: &FsPath,
        status: EntityStatus,
        platform_partial: bool,
    ) -> bool {
        ||| status is Missing
        ||| (platform_partial && spec_has_partial_ext(src.parts().last()))
        ||| match self.match_pattern {
            Some(p) => !regex_match(p@, src.spec_render()),
            None => false,
        }
    }

    /// A fresh task with nothing configured.
    pub fn new() -> (r: Task)
        ensures
            r.label is None,
            r.watched_types == WatchingKind::All,
            r.event_check is None,
            r.destination is None,
            r.match_pattern is None,
            r.resolver is None,
            r.wf(),
    {
        Task {
            label: None,
            watched_types: WatchingKind::All,
            event_check: None,
            destination: None,
            match_pattern: None,
            resolver: None,
        }
    }

    /// Sets the path-match pattern, rejecting one that does not compile.
    pub fn set_path_match_pattern(self, m: &str) -> (r: Result<Task, ConfigError>)
        ensures
            regex_valid(m@) <==> r is Ok,
            match r {
                Ok(t) => t.match_pattern matches Some(p) && p@ == m@ && t.same_config_except_pattern(
                    &self,
                ),
                Err(e) => e == ConfigError::BadPattern,
            },
            self.wf() ==> (r matches Ok(t) ==> t.wf()),
    {
        if pattern_is_valid(m) {
            Ok(
                Task {
                    match_pattern: Some(m.to_owned()),
                    label: self.label,
                    watched_types: self.watched_types,
                    event_check: self.event_check,
                    destination: self.destination,
                    resolver: self.resolver,
                },
            )
        } else {
            Err(ConfigError::BadPattern)
        }
    }

    /// Everything but the pattern agrees with `other`, resolver aside.
    pub open spec fn same_config_except_pattern(&self, other: &Task) -> bool {
        &&& self.label == other.label
        &&& self.watched_types == other.watched_types
        &&& self.event_check == other.event_check
        &&& self.destination == other.destination
    }

    /// Sets the destination directory; the path may be relative and is
    /// resolved against the owning root when the task joins a ruleset.
    pub fn set_destination(self, p: &str) -> (r: Task)
        ensures
            r.destination matches Some(d) && d.parts() == crate::text::split_path(p@)
                && d.absolute == (p@.len() > 0 && p@[0] == '/'),
            r.label == self.label,
            r.watched_types == self.watched_types,
            r.event_check == self.event_check,
            r.match_pattern == self.match_pattern,
            self.wf() ==> r.wf(),
    {
        let d = FsPath::parse(p);
        Task {
            destination: Some(d),
            label: self.label,
            watched_types: self.watched_types,
            event_check: self.event_check,
            match_pattern: self.match_pattern,
            resolver: self.resolver,
        }
    }

    /// Attaches a display label.
    pub fn set_label(self, s: &str) -> (r: Task)
        ensures
            r.label matches Some(l) && l@ == s@,
            r.watched_types == self.watched_types,
            r.event_check == self.event_check,
            r.destination == self.destination,
            r.match_pattern == self.match_pattern,
            self.wf() ==> r.wf(),
    {
        Task {
            label: Some(s.to_owned()),
            watched_types: self.watched_types,
            event_check: self.event_check,
            destination: self.destination,
            match_pattern: self.match_pattern,
            resolver: self.resolver,
        }
    }

    /// Reacts to files only.
    pub fn watch_files(self) -> (r: Task)
        ensures
            r.watched_types == WatchingKind::Files,
            r.label == self.label,
            r.event_check == self.event_check,
            r.destination == self.destination,
            r.match_pattern == self.match_pattern,
            self.wf() ==> r.wf(),
    {
        Task { watched_types: WatchingKind::Files, ..self }
    }

    /// Reacts to directories only.
    pub fn watch_dirs(self) -> (r: Task)
        ensures
            r.watched_types == WatchingKind::Dirs,
            r.label == self.label,
            r.event_check == self.event_check,
            r.destination == self.destination,
            r.match_pattern == self.match_pattern,
            self.wf() ==> r.wf(),
    {
        Task { watched_types: WatchingKind::Dirs, ..self }
    }

    /// Reacts to files and directories alike: the default.
    pub fn watch_all(self) -> (r: Task)
        ensures
            r == self,
    {
        self
    }

    /// Installs an event predicate.
    fn set_event(self, f: EventFilter) -> (r: Task)
        ensures
            r.event_check == Some(f),
            r.label == self.label,
            r.watched_types == self.watched_types,
            r.destination == self.destination,
            r.match_pattern == self.match_pattern,
            self.wf() ==> r.wf(),
    {
        Task { event_check: Some(f), ..self }
    }

    /// Reacts to modification events.
    pub fn on_modified(self) -> (r: Task)
        ensures
            r.event_check == Some(EventFilter::Modified),
            r.label == self.label,
            r.watched_types == self.watched_types,
            r.destination == self.destination,
            r.match_pattern == self.match_pattern,
            self.wf() ==> r.wf(),
    {
        self.set_event(EventFilter::Modified)
    }

    /// Reacts to creation events.
    pub fn on_create(self) -> (r: Task)
        ensures
            r.event_check == Some(EventFilter::Created),
            r.label == self.label,
            r.watched_types == self.watched_types,
            r.destination == self.destination,
            r.match_pattern == self.match_pattern,
            self.wf() ==> r.wf(),
    {
        self.set_event(EventFilter::Created)
    }

    /// Reacts to renames that gave the path its current name.
    pub fn on_rename(self) -> (r: Task)
        ensures
            r.event_check == Some(EventFilter::Renamed),
            r.label == self.label,
            r.watched_types == self.watched_types,
            r.destination == self.destination,
            r.match_pattern == self.match_pattern,
            self.wf() ==> r.wf(),
    {
        self.set_event(EventFilter::Renamed)
    }

    /// Binds a resolver to the task.
    pub fn with_module<T: Module>(self, module: T) -> (r: Task)
        ensures
            r.resolver is Some,
            r.label == self.label,
            r.watched_types == self.watched_types,
            r.event_check == self.event_check,
            r.destination == self.destination,
            r.match_pattern == self.match_pattern,
            self.wf() ==> r.wf(),
    {
        Task { resolver: Some(Box::new(module)), ..self }
    }

    /// Seals the builder.
    pub fn finish(self) -> (r: Task)
        ensures
            r == self,
    {
        self
    }

    /// Evaluates one considered event against the rule: suppression
    /// checks, destination computation, resolver consultation, and
    /// self-move suppression, yielding the rule's dispatch item. The
    /// resolver may return any verdict; every stated guarantee holds for
    /// all of them.
    pub fn parse(
        &mut self,
        src: &FsPath,
        dest_dir: &FsPath,
        status: EntityStatus,
        platform_partial: bool,
    ) -> (r: QueueTask)
        requires
            old(self).wf(),
            src.parts().len() > 0,
        ensures
            final(self).wf(),
            final(self).same_config(old(self)),
            old(self).spec_suppresses(src, status, platform_partial) ==> r is Skip,
            r matches QueueTask::Move { src: s, dest: d } ==> s.same_path(src) && !d.same_path(
                src,
            ) && d.parts().len() > 0,
            old(self).resolver is None && !old(self).spec_suppresses(src, status, platform_partial)
                ==> ({
                let proposed = dest_dir.parts().push(src.parts().last());
                if dest_dir.absolute == src.absolute && proposed == src.parts() {
                    r is Skip
                } else {
                    r matches QueueTask::Move { src: s, dest: d } && s.same_path(src) && d.absolute
                        == dest_dir.absolute && d.parts() == proposed
                }
            }),
    {
        match status {
            EntityStatus::Missing => {
                return QueueTask::Skip;
            },
            _ => {},
        }
        let name = src.file_name().unwrap();
        if platform_partial && crate::path::name_has_partial_ext(name.as_str()) {
            return QueueTask::Skip;
        }
        match &self.match_pattern {
            Some(p) => {
                let rendered = src.render();
                if !pattern_matches(p.as_str(), rendered.as_str()) {
                    return QueueTask::Skip;
                }
            },
            None => {},
        }
        let dest = dest_dir.join_name(name);
        let verdict = match &mut self.resolver {
            Some(m) => m.resolve(src.clone(), dest.clone()),
            None => Resolved::Continue,
        };
        apply_verdict(src, dest, verdict)
    }
}

/// The default move semantics applied to a resolver's verdict (a task
/// without a resolver proceeds as on `Continue`): terminal reports pass
/// through, a `Move` verdict overrides the computed destination, and a
/// move whose destination equals its source is suppressed as a no-op.
pub fn apply_verdict(src: &FsPath, dest: FsPath, verdict: Resolved) -> (r: QueueTask)
    ensures
        verdict matches Resolved::Path(p) ==> (r matches QueueTask::Path(q) && q == p),
        verdict matches Resolved::Info(m) ==> (r matches QueueTask::Info(q) && q == m),
        verdict matches Resolved::Done(m) ==> (r matches QueueTask::Done(q) && q == m),
        verdict matches Resolved::Failed(m) ==> (r matches QueueTask::Failed(q) && q == m),
        verdict is Skip ==> r is Skip,
        verdict is Continue ==> move_outcome_ok(src, &dest, r),
        verdict matches Resolved::Move { dest: d } ==> move_outcome_ok(src, &d, r),
        r matches QueueTask::Move { src: s, dest: d } ==> s.same_path(src) && !d.same_path(src)
            && d.parts().len() > 0,
{
    let target = match verdict {
        Resolved::Move { dest: new_path } => new_path,
        Resolved::Path(p) => {
            return QueueTask::Path(p);
        },
        Resolved::Info(msg) => {
            return QueueTask::Info(msg);
        },
        Resolved::Done(msg) => {
            return QueueTask::Done(msg);
        },
        Resolved::Failed(msg) => {
            return QueueTask::Failed(msg);
        },
        Resolved::Skip => {
            return QueueTask::Skip;
        },
        Resolved::Continue => dest,
    };
    if crate::path::path_eq(src, &target) {
        return QueueTask::Skip;
    }
    proof {
        assert(target.parts().len() == target.components@.len());
    }
    if target.components.len() == 0 {
        return QueueTask::Failed(String::from_str("destination without a file name"));
    }
    QueueTask::Move { src: src.clone(), dest: target }
}

/// The self-move-suppressed default move of `src` towards `target`:
/// a no-op when the two are the same path, a failure report when the
/// target has no name, and the move instruction otherwise.
pub open spec fn move_outcome_ok(src: &FsPath, target: &FsPath, r: QueueTask) -> bool {
    if src.same_path(target) {
        r is Skip
    } else if target.parts().len() == 0 {
        r is Failed
    } else {
        r matches QueueTask::Move { src: s, dest: d } && s.same_path(src) && d.same_path(target)
    }
}

/// One debounced event as a watcher thread hands it to matching: the
/// path, the event kind, and the path's file-vs-directory status on disk
/// at delivery time.
pub struct FsEvent {
    pub path: FsPath,
    pub kind: EventKind,
    pub status: EntityStatus,
}

/// The previous event kind buffered for `stem`, if any.
pub open spec fn spec_prev(entries: Seq<(Seq<char>, EventKind)>, stem: Seq<char>) -> Option<
    EventKind,
> {
    let at = find_key(entries, stem);
    if at >= 0 {
        Some(entries[at].1)
    } else {
        None
    }
}

/// What one buffered ring looks like after recording `entry`.
pub open spec fn spec_ring_push(
    entries: Seq<(Seq<char>, EventKind)>,
    cap: int,
    entry: (Seq<char>, EventKind),
) -> Seq<(Seq<char>, EventKind)> {
    if entries.len() == cap {
        entries.drop_first().push(entry)
    } else {
        entries.push(entry)
    }
}

/// What holds of the dispatch item a task yields for an event, whatever
/// verdict a bound resolver may have returned.
pub open spec fn item_ok_for(
    t: InnerTask,
    ev: &FsEvent,
    prev: Option<EventKind>,
    platform_partial: bool,
    item: QueueTask,
) -> bool {
    &&& (!t.task.spec_considers(ev.status, ev.kind, prev) ==> item is Skip)
    &&& (t.task.spec_suppresses(&ev.path, ev.status, platform_partial) ==> item is Skip)
    &&& (item matches QueueTask::Move { src, dest } ==> src.same_path(&ev.path)
        && !dest.same_path(&ev.path) && dest.parts().len() > 0)
    &&& (t.task.resolver is None && t.task.spec_considers(ev.status, ev.kind, prev)
        && !t.task.spec_suppresses(&ev.path, ev.status, platform_partial) ==> default_item_ok(
        t,
        ev,
        item,
    ))
}

/// The exact dispatch item the default semantics yield when no resolver
/// is bound: the source's name joined onto the task's resolved
/// destination, with a self-move suppressed.
pub open spec fn default_item_ok(t: InnerTask, ev: &FsEvent, item: QueueTask) -> bool {
    let proposed = t.dest.parts().push(ev.path.parts().last());
    if t.dest.absolute == ev.path.absolute && proposed == ev.path.parts() {
        item is Skip
    } else {
        item matches QueueTask::Move { src, dest } && src.same_path(&ev.path) && dest.absolute
            == t.dest.absolute && dest.parts() == proposed
    }
}

/// The asterisk component refused in watched roots.
pub open spec fn is_star(c: Seq<char>) -> bool {
    c == seq!['*']
}

/// A task bound to its owning root, with the destination directory
/// resolved once at registration time.
pub struct InnerTask {
    pub task: Task,
    /// The normalized destination directory for the rule's moves.
    pub dest: FsPath,
}

/// The tasks bound to one watched root, plus that root's recursion mode
/// and polling configuration.
pub struct Ruleset {
    pub watched_path: FsPath,
    pub tasks: Vec<InnerTask>,
    /// Per-root override of the debounce window, in milliseconds.
    pub poll_interval: Option<u64>,
    pub recursive_mode: RecursiveMode,
}

impl Ruleset {
    /// The root is a well-formed absolute path and every task is valid.
    pub open spec fn wf(&self) -> bool {
        &&& self.watched_path.absolute
        &&& self.watched_path.wf()
        &&& forall|i: int| 0 <= i < self.tasks@.len() ==> (#[trigger] self.tasks@[i]).task.wf()
    }

    /// Registers a ruleset for the root at `path`; `exists` reports
    /// whether that directory is present on disk. A root ending in an
    /// asterisk, a relative root, and a missing root are each refused.
    pub fn new(path: &str, exists: bool) -> (r: Result<Ruleset, ConfigError>)
        ensures
            ({
                let parts = crate::text::split_path(path@);
                let absolute = path@.len() > 0 && path@[0] == '/';
                let starred = parts.len() > 0 && is_star(parts.last());
                match r {
                    Ok(rs) => !starred && absolute && exists && rs.watched_path.parts() == parts
                        && rs.watched_path.absolute && rs.watched_path.wf() && rs.tasks@.len() == 0
                        && rs.poll_interval is None && rs.recursive_mode
                        == RecursiveMode::NonRecursive && rs.wf(),
                    Err(e) => if starred {
                        e == ConfigError::AsteriskInPath
                    } else if !absolute {
                        e == ConfigError::RootNotAbsolute
                    } else {
                        !exists && e == ConfigError::RootNotFound
                    },
                }
            }),
    {
        let parsed = FsPath::parse(path);
        if parsed.components.len() > 0 {
            let last = &parsed.components[parsed.components.len() - 1];
            let sl = last.as_str();
            if sl.unicode_len() == 1 && sl.get_char(0) == '*' {
                proof {
                    assert(last@ =~= seq!['*']);
                }
                return Err(ConfigError::AsteriskInPath);
            }
            proof {
                if is_star(parsed.parts().last()) {
                    assert(last@.len() == 1 && last@[0] == '*');
                }
            }
        }
        if !parsed.absolute {
            return Err(ConfigError::RootNotAbsolute);
        }
        if !exists {
            return Err(ConfigError::RootNotFound);
        }
        Ok(
            Ruleset {
                watched_path: parsed,
                tasks: Vec::new(),
                poll_interval: None,
                recursive_mode: RecursiveMode::NonRecursive,
            },
        )
    }

    /// Switches the root to recursive watching.
    pub fn recursive_mode(&mut self) -> (r: &mut Ruleset)
        ensures
            *r == (Ruleset { recursive_mode: RecursiveMode::Recursive, ..*old(self) }),
            *final(self) == *final(r),
    {
        self.recursive_mode = RecursiveMode::Recursive;
        self
    }

    /// Overrides the debounce window for this root alone.
    pub fn with_poll_interval(&mut self, millis: u64) -> (r: &mut Ruleset)
        ensures
            *r == (Ruleset { poll_interval: Some(millis), ..*old(self) }),
            *final(self) == *final(r),
    {
        self.poll_interval = Some(millis);
        self
    }

    /// Seals the ruleset for sharing.
    pub fn finish(&self) -> (r: std::sync::Arc<&Ruleset>)
        ensures
            *r == self,
    {
        std::sync::Arc::new(self)
    }

    /// Adds a task, resolving its destination against this root once: a
    /// task without a destination inherits the root; a relative one has
    /// its `.` and `..` markers resolved against the root's components;
    /// an absolute one stands alone. A task without an event predicate is
    /// refused.
    pub fn add(&mut self, task: Task) -> (r: Result<(), ConfigError>)
        requires
            old(self).wf(),
            task.wf(),
        ensures
            final(self).wf(),
            final(self).watched_path == old(self).watched_path,
            final(self).poll_interval == old(self).poll_interval,
            final(self).recursive_mode == old(self).recursive_mode,
            match r {
                Ok(_) => task.event_check is Some && final(self).tasks@ == old(self).tasks@.push(
                    final(self).tasks@.last(),
                ) && ({
                    let it = final(self).tasks@.last();
                    &&& it.task == task
                    &&& it.dest.absolute
                    &&& it.dest.parts() == match task.destination {
                        Some(d) => spec_resolve(
                            if d.absolute {
                                Seq::<Seq<char>>::empty()
                            } else {
                                old(self).watched_path.parts()
                            },
                            d.parts(),
                        ),
                        None => old(self).watched_path.parts(),
                    }
                }),
                Err(e) => task.event_check is None && e == ConfigError::MissingEventCheck
                    && *final(self) == *old(self),
            },
    {
        match task.event_check {
            None => {
                return Err(ConfigError::MissingEventCheck);
            },
            Some(_) => {},
        }
        let dest = match &task.destination {
            Some(d) => d.resolve_against(&self.watched_path),
            None => self.watched_path.clone(),
        };
        proof {
            if task.destination is None {
                assert(dest.absolute == self.watched_path.absolute);
            }
        }
        let ghost before = self.tasks@;
        self.tasks.push(InnerTask { task, dest });
        proof {
            assert(self.tasks@.last() == self.tasks@[before.len() as int]);
        }
        Ok(())
    }

    /// Evaluates one debounced event against every task of this ruleset,
    /// in declaration order, consulting and then refreshing the
    /// recent-event buffer. The result holds one dispatch item per task;
    /// a task whose filters reject the event contributes a no-op item.
    pub fn process_event(
        &mut self,
        buffer: &mut Buffer,
        ev: &FsEvent,
        platform_partial: bool,
    ) -> (r: Vec<QueueTask>)
        requires
            old(self).wf(),
            old(buffer).wf(),
            ev.path.parts().len() > 0,
        ensures
            final(self).wf(),
            final(self).watched_path == old(self).watched_path,
            final(self).poll_interval == old(self).poll_interval,
            final(self).recursive_mode == old(self).recursive_mode,
            final(self).tasks@.len() == old(self).tasks@.len(),
            forall|j: int|
                0 <= j < old(self).tasks@.len() ==> (#[trigger] final(self).tasks@[j]).task
                    .same_config(&old(self).tasks@[j].task) && final(self).tasks@[j].dest == old(
                    self,
                ).tasks@[j].dest,
            r@.len() == old(self).tasks@.len(),
            forall|j: int|
                0 <= j < r@.len() ==> item_ok_for(
                    old(self).tasks@[j],
                    ev,
                    spec_prev(old(buffer)@, spec_stem(ev.path.parts().last())),
                    platform_partial,
                    #[trigger] r@[j],
                ),
            final(buffer).wf(),
            final(buffer).spec_cap() == old(buffer).spec_cap(),
            final(buffer)@ == ({
                let stem = spec_stem(ev.path.parts().last());
                let at = find_key(old(buffer)@, stem);
                let removed = if at >= 0 {
                    old(buffer)@.remove(at)
                } else {
                    old(buffer)@
                };
                spec_ring_push(removed, old(buffer).spec_cap(), (stem, ev.kind))
            }),
    {
        let name = ev.path.file_name().unwrap();
        let stem = crate::path::name_stem(name.as_str());
        let prev = buffer.get_with_key(&stem);
        let ghost bmid = buffer@;
        let ghost bcap = buffer.spec_cap();
        let ghost prevk = spec_prev(old(buffer)@, spec_stem(ev.path.parts().last()));
        proof {
            assert(prev == prevk);
        }
        let mut out: Vec<QueueTask> = Vec::new();
        let mut i: usize = 0;
        let n = self.tasks.len();
        while i < n
            invariant
                0 <= i <= n,
                n == self.tasks@.len(),
                n == old(self).tasks@.len(),
                out@.len() == i,
                self.wf(),
                self.watched_path == old(self).watched_path,
                self.poll_interval == old(self).poll_interval,
                self.recursive_mode == old(self).recursive_mode,
                buffer.wf(),
                buffer@ == bmid,
                buffer.spec_cap() == bcap,
                ev.path.parts().len() > 0,
                forall|j: int| i <= j < n ==> self.tasks@[j] == old(self).tasks@[j],
                forall|j: int|
                    0 <= j < i ==> (#[trigger] self.tasks@[j]).task.same_config(
                        &old(self).tasks@[j].task,
                    ) && self.tasks@[j].dest == old(self).tasks@[j].dest,
                forall|j: int|
                    0 <= j < i ==> item_ok_for(
                        old(self).tasks@[j],
                        ev,
                        prevk,
                        platform_partial,
                        #[trigger] out@[j],
                    ),
            decreases n - i,
        {
            let kind_ok = match self.tasks[i].task.watched_types {
                WatchingKind::Files => matches!(ev.status, EntityStatus::File),
                WatchingKind::Dirs => matches!(ev.status, EntityStatus::Dir),
                WatchingKind::All => true,
            };
            let ev_ok = match &self.tasks[i].task.event_check {
                Some(f) => f.matches(ev.kind, prev),
                None => false,
            };
            if kind_ok && ev_ok {
                let dest_dir = self.tasks[i].dest.clone();
                let item = self.tasks[i].task.parse(
                    &ev.path,
                    &dest_dir,
                    ev.status,
                    platform_partial,
                );
                out.push(item);
            } else {
                proof {
                    assert(!old(self).tasks@[i as int].task.spec_considers(
                        ev.status,
                        ev.kind,
                        prevk,
                    ));
                }
                out.push(QueueTask::Skip);
            }
            i += 1;
        }
        buffer.push(stem, ev.kind);
        out
    }
}

/// Entity-kind filtering: a task watching files only never yields a
/// dispatch item for a path that is a directory or gone, and a task
/// watching directories only never yields one for a file.
pub proof fn lemma_entity_filtering(
    t: InnerTask,
    ev: &FsEvent,
    prev: Option<EventKind>,
    platform_partial: bool,
    item: QueueTask,
)
    requires
        item_ok_for(t, ev, prev, platform_partial, item),
    ensures
        t.task.watched_types == WatchingKind::Files && !(ev.status is File) ==> item is Skip,
        t.task.watched_types == WatchingKind::Dirs && !(ev.status is Dir) ==> item is Skip,
{
}

/// Self-move suppression: a dispatch item that instructs a move never
/// names its source as its destination, whatever verdict a resolver
/// returned.
pub proof fn lemma_self_move_suppressed(
    t: InnerTask,
    ev: &FsEvent,
    prev: Option<EventKind>,
    platform_partial: bool,
    item: QueueTask,
)
    requires
        item_ok_for(t, ev, prev, platform_partial, item),
    ensures
        item matches QueueTask::Move { src, dest } ==> !src.same_path(&dest),
{
}

} // verus!
