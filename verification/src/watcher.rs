//! The orchestrator's verified state: global configuration, the
//! registered rulesets, and the decisions `watch` makes when a root is
//! registered. Thread spawning, the dispatch channel, and the filesystem
//! work of the move executor live outside; they hand their observations
//! to the functions here and to the planner.

use vstd::prelude::*;

use crate::path::FsPath;
use crate::queue::{Msg, QueueTask};
use crate::ruleset::{ConfigError, Ruleset};
use crate::text::has_substring;
use crate::{color_wrap, spec_color_path, spec_colored, ColoredPath};

verus! {

/// The default debounce window, in milliseconds.
pub const DEFAULT_POLL_INTERVAL_MILLIS: u64 = 2000;

/// Global configuration of the orchestrator.
pub struct Config {
    /// Directory that receives files whose primary destination is
    /// occupied; nothing is ever silently overwritten there.
    pub dump_folder: FsPath,
    /// Debounce window in milliseconds, overridable per root.
    pub poll_interval: Option<u64>,
    /// Tick granularity of the debounce engine, in milliseconds.
    pub tick_rate: Option<u64>,
}

/// What `watch` decided for one root.
#[derive(Clone, Copy, Debug, PartialEq, Eq, Structural)]
pub enum WatchOutcome {
    /// The root was registered and its ruleset appended.
    Added,
    /// The root does not match the configured path filter; skipped
    /// silently.
    FilteredOut,
    /// The root does not exist on disk; skipped with a warning.
    MissingRoot,
}

/// The orchestrator: global configuration and the rulesets of every
/// registered root.
pub struct Watch {
    pub config: Config,
    pub rules: Vec<Ruleset>,
    /// When set, only roots whose path contains this text are watched.
    pub filter: Option<String>,
}

impl Watch {
    /// Every registered ruleset is valid and the dump folder is a
    /// well-formed absolute path.
    pub open spec fn wf(&self) -> bool {
        &&& self.config.dump_folder.absolute
        &&& self.config.dump_folder.wf()
        &&& forall|i: int| 0 <= i < self.rules@.len() ==> (#[trigger] self.rules@[i]).wf()
    }

    /// A fresh orchestrator: no rulesets, no filter, and the debounce
    /// window defaulted when the configuration leaves it unset. Creating
    /// the dump folder on disk is the caller's step.
    pub fn new(config: Config) -> (r: Watch)
        requires
            config.dump_folder.absolute,
            config.dump_folder.wf(),
        ensures
            r.wf(),
            r.config.dump_folder == config.dump_folder,
            r.config.tick_rate == config.tick_rate,
            r.config.poll_interval == if config.poll_interval is Some {
                config.poll_interval
            } else {
                Some(DEFAULT_POLL_INTERVAL_MILLIS)
            },
            r.rules@.len() == 0,
            r.filter is None,
    {
        let poll_interval = match config.poll_interval {
            Some(d) => Some(d),
            None => Some(DEFAULT_POLL_INTERVAL_MILLIS),
        };
        Watch {
            config: Config {
                dump_folder: config.dump_folder,
                poll_interval,
                tick_rate: config.tick_rate,
            },
            rules: Vec::new(),
            filter: None,
        }
    }

    /// Restricts watching to roots whose path contains the given text,
    /// as a command line may request.
    pub fn set_filter(&mut self, filter: Option<String>)
        ensures
            final(self).filter == filter,
            final(self).config == old(self).config,
            final(self).rules@ == old(self).rules@,
            old(self).wf() ==> final(self).wf(),
    {
        self.filter = filter;
    }

    /// Registers a ruleset for the root at `path`; `exists` reports
    /// whether the root is present on disk. A filtered-out or missing
    /// root is skipped; a malformed root is refused. On success the new
    /// ruleset is appended, for the caller to populate.
    pub fn watch(&mut self, path: &str, exists: bool) -> (r: Result<WatchOutcome, ConfigError>)
        requires
            old(self).wf(),
        ensures
            final(self).wf(),
            final(self).config == old(self).config,
            final(self).filter == old(self).filter,
            ({
                let filtered = match old(self).filter {
                    Some(f) => !has_substring(path@, f@),
                    None => false,
                };
                match r {
                    Ok(WatchOutcome::FilteredOut) => filtered && final(self).rules@ == old(
                        self,
                    ).rules@,
                    Ok(WatchOutcome::MissingRoot) => !filtered && !exists && final(self).rules@
                        == old(self).rules@,
                    Ok(WatchOutcome::Added) => !filtered && exists && final(self).rules@.len()
                        == old(self).rules@.len() + 1 && (forall|i: int|
                        0 <= i < old(self).rules@.len() ==> final(self).rules@[i] == old(
                            self,
                        ).rules@[i]) && ({
                        let rs = final(self).rules@.last();
                        &&& rs.wf()
                        &&& rs.watched_path.parts() == crate::text::split_path(path@)
                        &&& rs.watched_path.absolute
                        &&& rs.tasks@.len() == 0
                        &&& rs.poll_interval is None
                        &&& rs.recursive_mode == crate::ruleset::RecursiveMode::NonRecursive
                    }),
                    Err(e) => !filtered && exists && final(self).rules@ == old(self).rules@ && ({
                        let parts = crate::text::split_path(path@);
                        let absolute = path@.len() > 0 && path@[0] == '/';
                        if parts.len() > 0 && crate::ruleset::is_star(parts.last()) {
                            e == ConfigError::AsteriskInPath
                        } else {
                            !absolute && e == ConfigError::RootNotAbsolute
                        }
                    }),
                }
            }),
    {
        let filtered = match &self.filter {
            Some(f) => !crate::text::str_contains(path, f.as_str()),
            None => false,
        };
        if filtered {
            return Ok(WatchOutcome::FilteredOut);
        }
        if !exists {
            return Ok(WatchOutcome::MissingRoot);
        }
        match Ruleset::new(path, exists) {
            Ok(rs) => {
                let ghost before = self.rules@;
                self.rules.push(rs);
                proof {
                    assert(self.rules@.last() == self.rules@[before.len() as int]);
                }
                Ok(WatchOutcome::Added)
            },
            Err(e) => Err(e),
        }
    }
}

/// The report line for one finished dispatch item: an outcome colour, an
/// icon, and the message or path, or silence for a no-op.
pub open spec fn spec_report_line(code: Seq<char>, icon: Seq<char>, msg: Seq<char>) -> Seq<char> {
    seq![' '] + spec_colored(code, icon) + seq![' '] + msg
}

impl QueueTask {
    /// Renders the outcome of a finished dispatch item for display: an
    /// informational path in yellow, a plain message, a success in green,
    /// a failure in red; moves and no-ops print nothing.
    pub fn print_done(self) -> (r: Msg)
        ensures
            match self {
                QueueTask::Path(p) => r matches Msg::Text(t) && t@ == spec_report_line(
                    seq!['3', '3'],
                    Seq::<char>::empty(),
                    spec_color_path(&p),
                ),
                QueueTask::Info(m) => r matches Msg::Text(t) && t@ == spec_report_line(
                    seq!['3', '7'],
                    seq!['i'],
                    m@,
                ),
                QueueTask::Done(m) => r matches Msg::Text(t) && t@ == spec_report_line(
                    seq!['3', '2'],
                    seq!['+'],
                    m@,
                ),
                QueueTask::Failed(m) => r matches Msg::Text(t) && t@ == spec_report_line(
                    seq!['3', '1'],
                    seq!['!'],
                    m@,
                ),
                QueueTask::Move { .. } => r is Quiet,
                QueueTask::Skip => r is Quiet,
            },
    {
        let (code, icon, msg): (&str, &str, String) = match self {
            QueueTask::Path(p) => ("33", "", p.color_path()),
            QueueTask::Info(m) => ("37", "i", m),
            QueueTask::Done(m) => ("32", "+", m),
            QueueTask::Failed(m) => ("31", "!", m),
            _ => {
                return Msg::Quiet;
            },
        };
        let wrapped = color_wrap(code, icon);
        let mut line = String::from_str(" ");
        line.append(wrapped.as_str());
        line.append(" ");
        line.append(msg.as_str());
        proof {
            reveal_strlit(" ");
            reveal_strlit("");
            reveal_strlit("33");
            reveal_strlit("37");
            reveal_strlit("32");
            reveal_strlit("31");
            reveal_strlit("i");
            reveal_strlit("+");
            reveal_strlit("!");
            assert(line@ =~= seq![' '] + wrapped@ + seq![' '] + msg@);
        }
        Msg::Text(line)
    }
}

} // verus!
