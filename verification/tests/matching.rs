use watcher::{
    Buffer, Config, EntityStatus, EventKind, FsEvent, FsPath, ModifyKind, QueueTask, RenameMode,
    Ruleset, Task, Watch, WatchOutcome, WatchingKind,
};

fn zip_task() -> Task {
    Task::new()
        .set_path_match_pattern(r"\.zip$")
        .unwrap()
        .on_create()
        .watch_files()
        .set_destination("/w/zips")
        .finish()
}

fn event(path: &str, kind: EventKind, status: EntityStatus) -> FsEvent {
    FsEvent { path: FsPath::parse(path), kind, status }
}

#[test]
fn create_zip_yields_exactly_one_move() {
    let mut w = Watch::new(Config {
        dump_folder: FsPath::parse("/dump"),
        poll_interval: None,
        tick_rate: None,
    });
    assert_eq!(w.watch("/w", true), Ok(WatchOutcome::Added));
    w.rules[0].add(zip_task()).unwrap();

    let mut buf = Buffer::new();
    let items = w.rules[0].process_event(
        &mut buf,
        &event("/w/a.zip", EventKind::Create, EntityStatus::File),
        false,
    );
    assert_eq!(items.len(), 1);
    match &items[0] {
        QueueTask::Move { src, dest } => {
            assert_eq!(src.render(), "/w/a.zip");
            assert_eq!(dest.render(), "/w/zips/a.zip");
        }
        _ => panic!("expected a move instruction"),
    }
}

#[test]
fn create_txt_yields_no_move() {
    let mut rs = Ruleset::new("/w", true).unwrap();
    rs.add(zip_task()).unwrap();
    let mut buf = Buffer::new();
    let items = rs.process_event(
        &mut buf,
        &event("/w/a.txt", EventKind::Create, EntityStatus::File),
        false,
    );
    assert_eq!(items.len(), 1);
    assert!(matches!(items[0], QueueTask::Skip));
}

#[test]
fn files_only_task_skips_directories() {
    let mut rs = Ruleset::new("/w", true).unwrap();
    rs.add(zip_task()).unwrap();
    let mut buf = Buffer::new();
    let items = rs.process_event(
        &mut buf,
        &event("/w/a.zip", EventKind::Create, EntityStatus::Dir),
        false,
    );
    assert!(matches!(items[0], QueueTask::Skip));
}

#[test]
fn dirs_only_task_skips_files() {
    let mut rs = Ruleset::new("/w", true).unwrap();
    let t = Task::new().on_create().watch_dirs().finish();
    rs.add(t).unwrap();
    let mut buf = Buffer::new();
    let items = rs.process_event(
        &mut buf,
        &event("/w/sub", EventKind::Create, EntityStatus::File),
        false,
    );
    assert!(matches!(items[0], QueueTask::Skip));
}

#[test]
fn missing_path_is_suppressed() {
    let mut rs = Ruleset::new("/w", true).unwrap();
    let t = Task::new().on_create().finish();
    rs.add(t).unwrap();
    let mut buf = Buffer::new();
    let items = rs.process_event(
        &mut buf,
        &event("/w/gone.zip", EventKind::Create, EntityStatus::Missing),
        false,
    );
    assert!(matches!(items[0], QueueTask::Skip));
}

#[test]
fn partial_download_is_suppressed_when_platform_says_so() {
    let mut rs = Ruleset::new("/w", true).unwrap();
    rs.add(Task::new().on_create().watch_files().set_destination("out").finish()).unwrap();
    let mut buf = Buffer::new();
    let items = rs.process_event(
        &mut buf,
        &event("/w/movie.mkv.part", EventKind::Create, EntityStatus::File),
        true,
    );
    assert!(matches!(items[0], QueueTask::Skip));

    let mut buf2 = Buffer::new();
    let items2 = rs.process_event(
        &mut buf2,
        &event("/w/movie.mkv.part", EventKind::Create, EntityStatus::File),
        false,
    );
    assert!(matches!(items2[0], QueueTask::Move { .. }));
}

#[test]
fn event_predicate_filters_kinds() {
    let mut rs = Ruleset::new("/w", true).unwrap();
    rs.add(Task::new().on_create().finish()).unwrap();
    let mut buf = Buffer::new();
    let items = rs.process_event(
        &mut buf,
        &event("/w/a", EventKind::Modify(ModifyKind::Data), EntityStatus::File),
        false,
    );
    assert!(matches!(items[0], QueueTask::Skip));
}

#[test]
fn rename_predicate_accepts_rename_to() {
    let mut rs = Ruleset::new("/w", true).unwrap();
    rs.add(Task::new().on_rename().set_destination("renamed").finish()).unwrap();
    let mut buf = Buffer::new();
    let items = rs.process_event(
        &mut buf,
        &event(
            "/w/a",
            EventKind::Modify(ModifyKind::Name(RenameMode::To)),
            EntityStatus::File,
        ),
        false,
    );
    match &items[0] {
        QueueTask::Move { dest, .. } => assert_eq!(dest.render(), "/w/renamed/a"),
        _ => panic!("expected a move instruction"),
    }
}

#[test]
fn task_without_destination_inherits_root() {
    let mut rs = Ruleset::new("/w/sub", true).unwrap();
    rs.add(Task::new().on_create().finish()).unwrap();
    assert_eq!(rs.tasks[0].dest.render(), "/w/sub");
}

#[test]
fn relative_destination_resolves_against_root() {
    let mut rs = Ruleset::new("/w/sub", true).unwrap();
    rs.add(Task::new().on_create().set_destination("../out").finish()).unwrap();
    assert_eq!(rs.tasks[0].dest.render(), "/w/out");
}

#[test]
fn destination_climbing_to_the_root_is_clamped() {
    let mut rs = Ruleset::new("/w", true).unwrap();
    rs.add(Task::new().on_create().set_destination("../../..").finish()).unwrap();
    assert_eq!(rs.tasks[0].dest.render(), "/");
    let mut buf = Buffer::new();
    let items = rs.process_event(
        &mut buf,
        &event("/w/a.zip", EventKind::Create, EntityStatus::File),
        false,
    );
    match &items[0] {
        QueueTask::Move { dest, .. } => assert_eq!(dest.render(), "/a.zip"),
        _ => panic!("expected a move instruction"),
    }
}

#[test]
fn watch_refuses_an_asterisk_root() {
    let mut w = Watch::new(Config {
        dump_folder: FsPath::parse("/dump"),
        poll_interval: None,
        tick_rate: None,
    });
    assert_eq!(w.watch("/w/*", true), Err(watcher::ConfigError::AsteriskInPath));
    assert_eq!(w.rules.len(), 0);
}

#[test]
fn task_without_predicate_is_refused() {
    let mut rs = Ruleset::new("/w", true).unwrap();
    let r = rs.add(Task::new().watch_files().finish());
    assert_eq!(r, Err(watcher::ConfigError::MissingEventCheck));
    assert_eq!(rs.tasks.len(), 0);
}

#[test]
fn bad_pattern_is_refused() {
    let r = Task::new().set_path_match_pattern("(unclosed");
    assert!(matches!(r, Err(watcher::ConfigError::BadPattern)));
}

#[test]
fn asterisk_root_is_refused() {
    assert!(matches!(
        Ruleset::new("/w/*", true),
        Err(watcher::ConfigError::AsteriskInPath)
    ));
}

#[test]
fn relative_root_is_refused() {
    assert!(matches!(
        Ruleset::new("w", true),
        Err(watcher::ConfigError::RootNotAbsolute)
    ));
}

#[test]
fn missing_root_is_refused() {
    assert!(matches!(
        Ruleset::new("/w", false),
        Err(watcher::ConfigError::RootNotFound)
    ));
}

#[test]
fn watch_filter_skips_other_roots() {
    let mut w = Watch::new(Config {
        dump_folder: FsPath::parse("/dump"),
        poll_interval: None,
        tick_rate: None,
    });
    w.set_filter(Some("music".to_string()));
    assert_eq!(w.watch("/w/pictures", true), Ok(WatchOutcome::FilteredOut));
    assert_eq!(w.watch("/w/music", true), Ok(WatchOutcome::Added));
    assert_eq!(w.rules.len(), 1);
}

#[test]
fn watch_missing_root_is_skipped() {
    let mut w = Watch::new(Config {
        dump_folder: FsPath::parse("/dump"),
        poll_interval: None,
        tick_rate: None,
    });
    assert_eq!(w.watch("/gone", false), Ok(WatchOutcome::MissingRoot));
    assert_eq!(w.rules.len(), 0);
}

#[test]
fn watch_defaults_poll_interval() {
    let w = Watch::new(Config {
        dump_folder: FsPath::parse("/dump"),
        poll_interval: None,
        tick_rate: None,
    });
    assert_eq!(w.config.poll_interval, Some(2000));
    let w2 = Watch::new(Config {
        dump_folder: FsPath::parse("/dump"),
        poll_interval: Some(250),
        tick_rate: None,
    });
    assert_eq!(w2.config.poll_interval, Some(250));
}

#[test]
fn buffer_is_a_bounded_ring_with_one_shot_lookup() {
    let mut buf = Buffer::with_capacity(2);
    buf.push("a".to_string(), EventKind::Create);
    buf.push("b".to_string(), EventKind::Remove);
    buf.push("c".to_string(), EventKind::Create);
    // "a" was evicted by the capacity bound.
    assert_eq!(buf.get_with_key(&"a".to_string()), None);
    // "b" is consulted once, then gone.
    assert_eq!(buf.get_with_key(&"b".to_string()), Some(EventKind::Remove));
    assert_eq!(buf.get_with_key(&"b".to_string()), None);
    assert_eq!(buf.get_with_key(&"c".to_string()), Some(EventKind::Create));
}

#[test]
fn processing_records_the_event_stem() {
    let mut rs = Ruleset::new("/w", true).unwrap();
    rs.add(Task::new().on_create().finish()).unwrap();
    let mut buf = Buffer::new();
    rs.process_event(
        &mut buf,
        &event("/w/a.zip", EventKind::Create, EntityStatus::File),
        false,
    );
    // The stem of the processed path is now buffered.
    assert_eq!(buf.get_with_key(&"a".to_string()), Some(EventKind::Create));
}

#[test]
fn equal_stems_are_consulted_oldest_first() {
    let mut buf = Buffer::new();
    buf.push("a".to_string(), EventKind::Create);
    buf.push("a".to_string(), EventKind::Remove);
    assert_eq!(buf.get_with_key(&"a".to_string()), Some(EventKind::Create));
    assert_eq!(buf.get_with_key(&"a".to_string()), Some(EventKind::Remove));
    assert_eq!(buf.get_with_key(&"a".to_string()), None);
}

#[test]
fn default_buffer_capacity_is_nine() {
    let mut buf = Buffer::new();
    for i in 0..10 {
        buf.push(format!("s{i}"), EventKind::Create);
    }
    // The first stem was evicted; the other nine are present.
    assert_eq!(buf.get_with_key(&"s0".to_string()), None);
    for i in 1..10 {
        assert_eq!(buf.get_with_key(&format!("s{i}")), Some(EventKind::Create));
    }
}

#[test]
fn watching_kind_default_is_all() {
    let t = Task::new();
    assert_eq!(t.watched_types, WatchingKind::All);
}
