use watcher::{
    Buffer, EntityStatus, EventKind, FsEvent, FsPath, Module, QueueTask, Resolved, Ruleset, Task,
};

/// A resolver that always renders the same verdict, for exercising the
/// pipeline's handling of each one.
enum Fixed {
    Override(&'static str),
    Report(&'static str),
    PathReport(&'static str),
    Accept,
    Drop,
}

impl Module for Fixed {
    fn resolve(&mut self, _src: FsPath, _dest: FsPath) -> Resolved {
        match self {
            Fixed::Override(p) => Resolved::Move { dest: FsPath::parse(p) },
            Fixed::Report(m) => Resolved::Info(m.to_string()),
            Fixed::PathReport(p) => Resolved::Path(FsPath::parse(p)),
            Fixed::Accept => Resolved::Continue,
            Fixed::Drop => Resolved::Skip,
        }
    }
}

/// A resolver that counts its invocations, showing the task's exclusive
/// mutable access to its state.
struct Counting {
    calls: u64,
}

impl Module for Counting {
    fn resolve(&mut self, _src: FsPath, _dest: FsPath) -> Resolved {
        self.calls += 1;
        if self.calls >= 2 {
            Resolved::Done(format!("call {}", self.calls))
        } else {
            Resolved::Continue
        }
    }
}

fn run_one(task: Task, path: &str) -> QueueTask {
    let mut rs = Ruleset::new("/w", true).unwrap();
    rs.add(task).unwrap();
    let mut buf = Buffer::new();
    let mut items = rs.process_event(
        &mut buf,
        &FsEvent {
            path: FsPath::parse(path),
            kind: EventKind::Create,
            status: EntityStatus::File,
        },
        false,
    );
    assert_eq!(items.len(), 1);
    items.remove(0)
}

#[test]
fn resolver_overrides_the_destination() {
    let t = Task::new()
        .on_create()
        .set_destination("out")
        .with_module(Fixed::Override("/elsewhere/b.zip"))
        .finish();
    match run_one(t, "/w/a.zip") {
        QueueTask::Move { src, dest } => {
            assert_eq!(src.render(), "/w/a.zip");
            assert_eq!(dest.render(), "/elsewhere/b.zip");
        }
        _ => panic!("expected a move instruction"),
    }
}

#[test]
fn resolver_override_to_source_is_suppressed() {
    // An override that names the source itself yields a no-op, not a
    // rename: no verdict can make the pipeline move a file onto itself.
    let t = Task::new()
        .on_create()
        .set_destination("out")
        .with_module(Fixed::Override("/w/a.zip"))
        .finish();
    assert!(matches!(run_one(t, "/w/a.zip"), QueueTask::Skip));
}

#[test]
fn resolver_override_without_name_is_reported() {
    let t = Task::new()
        .on_create()
        .set_destination("out")
        .with_module(Fixed::Override("/"))
        .finish();
    assert!(matches!(run_one(t, "/w/a.zip"), QueueTask::Failed(_)));
}

#[test]
fn resolver_reports_pass_through() {
    let t = Task::new()
        .on_create()
        .set_destination("out")
        .with_module(Fixed::Report("note"))
        .finish();
    match run_one(t, "/w/a.zip") {
        QueueTask::Info(m) => assert_eq!(m, "note"),
        _ => panic!("expected the informational report"),
    }

    let t = Task::new()
        .on_create()
        .set_destination("out")
        .with_module(Fixed::PathReport("/shown"))
        .finish();
    match run_one(t, "/w/a.zip") {
        QueueTask::Path(p) => assert_eq!(p.render(), "/shown"),
        _ => panic!("expected the path report"),
    }
}

#[test]
fn resolver_continue_accepts_the_computed_destination() {
    let t = Task::new()
        .on_create()
        .set_destination("out")
        .with_module(Fixed::Accept)
        .finish();
    match run_one(t, "/w/a.zip") {
        QueueTask::Move { dest, .. } => assert_eq!(dest.render(), "/w/out/a.zip"),
        _ => panic!("expected a move instruction"),
    }
}

#[test]
fn resolver_skip_yields_nothing() {
    let t = Task::new()
        .on_create()
        .set_destination("out")
        .with_module(Fixed::Drop)
        .finish();
    assert!(matches!(run_one(t, "/w/a.zip"), QueueTask::Skip));
}

#[test]
fn resolver_state_is_carried_between_evaluations() {
    let mut rs = Ruleset::new("/w", true).unwrap();
    rs.add(
        Task::new()
            .on_create()
            .set_destination("out")
            .with_module(Counting { calls: 0 })
            .finish(),
    )
    .unwrap();
    let mut buf = Buffer::new();
    let ev = FsEvent {
        path: FsPath::parse("/w/a.zip"),
        kind: EventKind::Create,
        status: EntityStatus::File,
    };
    let first = rs.process_event(&mut buf, &ev, false);
    assert!(matches!(first[0], QueueTask::Move { .. }));
    let second = rs.process_event(&mut buf, &ev, false);
    match &second[0] {
        QueueTask::Done(m) => assert_eq!(m, "call 2"),
        _ => panic!("expected the counted report"),
    }
}
