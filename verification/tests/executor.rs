use watcher::executor::{disambiguate, redirect_on_collision};
use watcher::{
    Buffer, EntityStatus, EventKind, FsEvent, FsPath, QueueTask, Ruleset, Stamper, Task,
};

#[test]
fn self_move_is_suppressed() {
    // Destination equal to the source: the default semantics emit a no-op.
    let mut rs = Ruleset::new("/w", true).unwrap();
    rs.add(Task::new().on_create().finish()).unwrap();
    let mut buf = Buffer::new();
    let items = rs.process_event(
        &mut buf,
        &FsEvent {
            path: FsPath::parse("/w/a.zip"),
            kind: EventKind::Create,
            status: EntityStatus::File,
        },
        false,
    );
    // dest dir is the root itself, so the computed destination equals the
    // source path.
    assert!(matches!(items[0], QueueTask::Skip));
}

#[test]
fn free_destination_is_kept() {
    let src = FsPath::parse("/w/a.zip");
    let dest = FsPath::parse("/w/zips/a.zip");
    let dump = FsPath::parse("/dump");
    let d1 = redirect_on_collision(&src, &dest, &dump, false);
    assert_eq!(d1.render(), "/w/zips/a.zip");
    let d2 = disambiguate(&d1, false, 7);
    assert_eq!(d2.render(), "/w/zips/a.zip");
}

#[test]
fn occupied_destination_redirects_to_dump_folder() {
    let src = FsPath::parse("/w/a.zip");
    let dest = FsPath::parse("/w/zips/a.zip");
    let dump = FsPath::parse("/dump");
    let d1 = redirect_on_collision(&src, &dest, &dump, true);
    assert_eq!(d1.render(), "/dump/a.zip");
    let d2 = disambiguate(&d1, false, 7);
    assert_eq!(d2.render(), "/dump/a.zip");
}

#[test]
fn occupied_fallback_gets_a_timestamp() {
    let src = FsPath::parse("/w/a.zip");
    let dest = FsPath::parse("/w/zips/a.zip");
    let dump = FsPath::parse("/dump");
    let d1 = redirect_on_collision(&src, &dest, &dump, true);
    let d2 = disambiguate(&d1, true, 1700000000);
    assert_eq!(d2.render(), "/dump/a.zip.1700000000");
}

#[test]
fn two_collisions_in_one_second_get_distinct_paths() {
    let mut stamper = Stamper::new();
    let now = 1700000000;
    let s1 = stamper.next(now);
    let s2 = stamper.next(now);
    assert_ne!(s1, s2);
    let base = FsPath::parse("/dump/a.zip");
    let p1 = disambiguate(&base, true, s1);
    let p2 = disambiguate(&base, true, s2);
    assert!(!watcher::path::path_eq(&p1, &p2));
    assert_eq!(p1.render(), "/dump/a.zip.1700000000");
    assert_eq!(p2.render(), "/dump/a.zip.1700000001");
}

#[test]
fn stamper_tracks_the_clock_when_it_advances() {
    let mut stamper = Stamper::new();
    assert_eq!(stamper.next(100), 100);
    assert_eq!(stamper.next(100), 101);
    assert_eq!(stamper.next(200), 200);
    assert_eq!(stamper.next(150), 201);
}

#[test]
fn end_to_end_collision_lands_in_dump_folder() {
    // A task moving zip archives, with /w/zips/a.zip already occupied:
    // the item is planned into the dump folder under the source's name.
    let mut rs = Ruleset::new("/w", true).unwrap();
    rs.add(
        Task::new()
            .set_path_match_pattern(r"\.zip$")
            .unwrap()
            .on_create()
            .watch_files()
            .set_destination("zips")
            .finish(),
    )
    .unwrap();
    let mut buf = Buffer::new();
    let items = rs.process_event(
        &mut buf,
        &FsEvent {
            path: FsPath::parse("/w/a.zip"),
            kind: EventKind::Create,
            status: EntityStatus::File,
        },
        false,
    );
    let (src, dest) = match &items[0] {
        QueueTask::Move { src, dest } => (src, dest),
        _ => panic!("expected a move instruction"),
    };
    assert_eq!(dest.render(), "/w/zips/a.zip");
    let dump = FsPath::parse("/dump");
    // The primary destination exists; the dump folder slot is free.
    let planned = redirect_on_collision(src, dest, &dump, true);
    let planned = disambiguate(&planned, false, 0);
    assert_eq!(planned.render(), "/dump/a.zip");
    // If the dump folder also holds a.zip, a timestamp disambiguates.
    let planned2 = redirect_on_collision(src, dest, &dump, true);
    let planned2 = disambiguate(&planned2, true, 42);
    assert_eq!(planned2.render(), "/dump/a.zip.42");
}
