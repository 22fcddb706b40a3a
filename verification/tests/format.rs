use watcher::path::name_stem;
use watcher::text::{str_contains, u64_decimal};
use watcher::{color_wrap, timestamp, ColoredPath, FsPath, Msg, QueueTask, Resolved, Zips};

#[test]
fn decimal_rendering() {
    assert_eq!(u64_decimal(0), "0");
    assert_eq!(u64_decimal(7), "7");
    assert_eq!(u64_decimal(10), "10");
    assert_eq!(u64_decimal(1700000000), "1700000000");
    assert_eq!(u64_decimal(u64::MAX), "18446744073709551615");
}

#[test]
fn timestamp_is_all_digits() {
    let t = timestamp();
    assert!(!t.is_empty());
    assert!(t.chars().all(|c| c.is_ascii_digit()));
}

#[test]
fn substring_search() {
    assert!(str_contains("winrar-archive", "rar"));
    assert!(str_contains("rar", "rar"));
    assert!(str_contains("anything", ""));
    assert!(!str_contains("zip", "rar"));
    assert!(!str_contains("ra", "rar"));
}

#[test]
fn color_wrap_exact() {
    assert_eq!(color_wrap("31", "x"), "\x1b[31mx\x1b[0m");
}

#[test]
fn color_path_plain_tail() {
    let p = FsPath::parse("/a/b/c");
    let s = p.color_path();
    // The final component is plain, the one before highlighted, earlier
    // ones dimmed, separated by the dimmed slash.
    assert_eq!(
        s,
        "\x1b[37ma\x1b[0m\x1b[38;5;238m/\x1b[0m\x1b[36mb\x1b[0m\x1b[38;5;238m/\x1b[0mc"
    );
}

#[test]
fn color_path_root_marker() {
    assert_eq!(FsPath::root().color_path(), "#");
    assert_eq!(FsPath::parse("").color_path(), "");
}

#[test]
fn print_done_lines() {
    match QueueTask::Done("moved".to_string()).print_done() {
        Msg::Text(t) => assert_eq!(t, " \x1b[32m+\x1b[0m moved"),
        Msg::Quiet => panic!("expected a line"),
    }
    match QueueTask::Failed("broken".to_string()).print_done() {
        Msg::Text(t) => assert_eq!(t, " \x1b[31m!\x1b[0m broken"),
        Msg::Quiet => panic!("expected a line"),
    }
    match QueueTask::Info("note".to_string()).print_done() {
        Msg::Text(t) => assert_eq!(t, " \x1b[37mi\x1b[0m note"),
        Msg::Quiet => panic!("expected a line"),
    }
    match QueueTask::Path(FsPath::parse("/a")).print_done() {
        Msg::Text(t) => assert_eq!(t, " \x1b[33m\x1b[0m a"),
        Msg::Quiet => panic!("expected a line"),
    }
    assert!(matches!(QueueTask::Skip.print_done(), Msg::Quiet));
    assert!(matches!(
        QueueTask::Move { src: FsPath::parse("/a"), dest: FsPath::parse("/b") }.print_done(),
        Msg::Quiet
    ));
}

#[test]
fn zips_passes_rar_names_through() {
    let r = Zips::plan(&FsPath::parse("/w/thing.rar"), &FsPath::parse("/w/zips/thing.rar"));
    assert!(matches!(r, Resolved::Continue));
}

#[test]
fn zips_diverts_other_names_into_subfolder() {
    let r = Zips::plan(&FsPath::parse("/w/a.zip"), &FsPath::parse("/w/zips/a.zip"));
    match r {
        Resolved::Move { dest } => assert_eq!(dest.render(), "/w/zips/a.zip/rar-0001/a.zip"),
        _ => panic!("expected a diverted move"),
    }
}

#[test]
fn stems_feed_the_buffer_key() {
    assert_eq!(name_stem("a.zip"), "a");
}
