use treemap_disk_analyzer::tree::FileNode;
use treemap_disk_analyzer::watch::{
    apply_change, change_path, is_watch_limit_error, ChangeEffect, Observed, StatusKind, WatchState,
};

fn node(name: &str, is_dir: bool, size: u64) -> FileNode<(), ()> {
    FileNode::new(name.to_string(), is_dir, size, (), ())
}

fn comps(parts: &[&str]) -> Vec<String> {
    parts.iter().map(|s| s.to_string()).collect()
}

fn tree() -> FileNode<(), ()> {
    let mut root = node("root", true, 30);
    let mut d = node("d", true, 20);
    d.children = vec![node("x", false, 20)];
    root.children = vec![d, node("f", false, 10)];
    root.is_sorted = true;
    root
}

#[test]
fn vanished_entry_is_removed() {
    let mut root = tree();
    assert_eq!(apply_change(&mut root, &comps(&["f"]), Observed::Missing, (), ()), ChangeEffect::Removed);
    assert_eq!(root.children.len(), 1);
    assert!(!root.is_sorted);
    assert_eq!(apply_change(&mut root, &comps(&["f"]), Observed::Missing, (), ()), ChangeEffect::Ignored);
    assert_eq!(apply_change(&mut root, &comps(&["nope", "f"]), Observed::Missing, (), ()), ChangeEffect::Ignored);
}

#[test]
fn new_directory_is_added_once() {
    let mut root = tree();
    assert_eq!(
        apply_change(&mut root, &comps(&["d", "new"]), Observed::Directory, (), ()),
        ChangeEffect::DirectoryAdded
    );
    assert_eq!(root.children[0].children.len(), 2);
    assert!(root.children[0].children[1].is_dir);
    assert_eq!(apply_change(&mut root, &comps(&["d", "new"]), Observed::Directory, (), ()), ChangeEffect::Ignored);
}

#[test]
fn file_change_resizes_or_adds() {
    let mut root = tree();
    assert_eq!(
        apply_change(&mut root, &comps(&["d", "x"]), Observed::File(25), (), ()),
        ChangeEffect::FileResized(5)
    );
    assert_eq!(root.size_bytes, 35);
    assert_eq!(root.children[0].size_bytes, 25);
    assert_eq!(apply_change(&mut root, &comps(&["d", "y"]), Observed::File(3), (), ()), ChangeEffect::FileAdded);
    assert_eq!(root.children[0].children[1].size_bytes, 3);
    assert_eq!(apply_change(&mut root, &comps(&["zz", "y"]), Observed::File(3), (), ()), ChangeEffect::Ignored);
    assert_eq!(apply_change(&mut root, &comps(&["f"]), Observed::Other, (), ()), ChangeEffect::Ignored);
}

#[test]
fn limit_errors_are_recognised() {
    assert!(is_watch_limit_error("No space left on device (os error 28)"));
    assert!(is_watch_limit_error("os error 28"));
    assert!(!is_watch_limit_error("Permission denied (os error 13)"));
}

#[test]
fn watch_bookkeeping() {
    let mut s = WatchState::after_root_watch("/r".to_string(), false, true, Ok(()));
    assert_eq!(s.watched_count(), 1);
    assert!(s.is_watched("/r"));
    assert!(!s.wants_watch("/r/"));
    assert!(s.wants_watch("/r/a"));
    assert!(!s.wants_watch("/proc/1"));
    assert!(!s.record_watch("/r/a".to_string(), Ok(())));
    assert!(!s.record_watch("/r//a".to_string(), Ok(())));
    assert_eq!(s.watched_count(), 2);
    assert_eq!(s.watching_label(), "WATCHING (INOTIFY: 2 DIRS)");
    assert!(!s.record_watch("/r/b".to_string(), Err("Permission denied".to_string())));
    assert_eq!(s.error_text().as_deref(), Some("Permission denied"));
    assert!(s.record_watch("/r/c".to_string(), Err("No space left on device".to_string())));
    assert!(s.limit_hit());
    assert!(!s.record_watch("/r/d".to_string(), Err("No space left on device".to_string())));
    assert!(!s.wants_watch("/r/e"));
}

#[test]
fn watcher_states_at_start() {
    let native = WatchState::after_root_watch("/r".to_string(), true, false, Ok(()));
    assert!(!native.wants_watch("/r/a"));
    let limited = WatchState::after_root_watch("/r".to_string(), false, true, Err("os error 28".to_string()));
    assert!(limited.limit_hit() && limited.watched_count() == 0 && limited.error_text().is_none());
    let failed = WatchState::after_init_failure(false, true, "boom");
    assert_eq!(failed.error_text().as_deref(), Some("Init error: boom"));
    assert!(!failed.has_watcher() && !failed.is_alive());
    assert!(!failed.wants_watch("/x"));
}

#[test]
fn many_watched_directories_stay_unique() {
    let mut s = WatchState::after_root_watch("/r".to_string(), false, false, Ok(()));
    for i in 0..30_000 {
        let p = format!("/r/d{i}");
        assert!(s.wants_watch(&p));
        assert!(!s.record_watch(p, Ok(())));
    }
    assert_eq!(s.watched_count(), 30_001);
    // the same directories written differently are already watched
    for i in (0..30_000).step_by(97) {
        let p = format!("/r/./d{i}/");
        assert!(s.is_watched(&p));
        assert!(!s.wants_watch(&p));
        assert!(!s.record_watch(p, Ok(())));
    }
    assert_eq!(s.watched_count(), 30_001);
    assert!(!s.is_watched("/r/d30000"));
    assert_eq!(s.watching_label(), "WATCHING (INOTIFY: 30001 DIRS)");
}

#[test]
fn changes_inside_the_tree_only() {
    let names = |v: Option<Vec<String>>| v.map(|c| c.join("|"));
    assert_eq!(names(change_path("/t/a/b.txt", "/t", true)), Some("a|b.txt".to_string()));
    assert_eq!(names(change_path("/t//a/./b.txt", "/t/", true)), Some("a|b.txt".to_string()));
    assert_eq!(change_path("/t", "/t", true), None);
    assert_eq!(change_path("/other/x", "/t", true), None);
    assert_eq!(change_path("/proc/1/stat", "/", true), None);
    assert_eq!(names(change_path("/proc/1/stat", "/", false)), Some("proc|1|stat".to_string()));
}

fn shape(n: &FileNode<(), ()>) -> String {
    let kids: Vec<String> = n.children.iter().map(shape).collect();
    format!("{}:{}:{}[{}]", n.name, n.size_bytes, n.is_sorted, kids.join(","))
}

#[test]
fn a_change_seen_twice_is_applied_once() {
    let mut root = tree();
    assert_eq!(apply_change(&mut root, &comps(&["d", "new"]), Observed::Directory, (), ()), ChangeEffect::DirectoryAdded);
    let once = shape(&root);
    assert_eq!(apply_change(&mut root, &comps(&["d", "new"]), Observed::Directory, (), ()), ChangeEffect::Ignored);
    assert_eq!(shape(&root), once);

    assert_eq!(apply_change(&mut root, &comps(&["d", "x"]), Observed::File(25), (), ()), ChangeEffect::FileResized(5));
    let once = shape(&root);
    assert_eq!(apply_change(&mut root, &comps(&["d", "x"]), Observed::File(25), (), ()), ChangeEffect::FileResized(0));
    assert_eq!(shape(&root), once);

    assert_eq!(apply_change(&mut root, &comps(&["d", "y"]), Observed::File(7), (), ()), ChangeEffect::FileAdded);
    let once = shape(&root);
    assert_eq!(apply_change(&mut root, &comps(&["d", "y"]), Observed::File(7), (), ()), ChangeEffect::FileResized(0));
    assert_eq!(shape(&root), once);

    assert_eq!(apply_change(&mut root, &comps(&["gone", "z"]), Observed::File(7), (), ()), ChangeEffect::Ignored);
    assert_eq!(apply_change(&mut root, &comps(&["gone", "z"]), Observed::File(7), (), ()), ChangeEffect::Ignored);
    assert_eq!(shape(&root), once);
}

#[test]
fn status_line_decisions() {
    let live = WatchState::after_root_watch("/r".to_string(), false, true, Ok(()));
    assert_eq!(live.status(true), StatusKind::Scanning);
    assert_eq!(live.status_text(true, "B"), "SCANNING...");
    assert_eq!(live.status(false), StatusKind::Watching);
    assert_eq!(live.status_text(false, &live.watching_label()), "WATCHING (INOTIFY: 1 DIRS)");
    let mut limited = WatchState::after_root_watch("/r".to_string(), false, true, Ok(()));
    assert!(limited.record_watch("/r/a".to_string(), Ok(())) == false);
    assert!(limited.record_watch("/r/b".to_string(), Err("os error 28".to_string())));
    assert_eq!(limited.status(false), StatusKind::LimitHit);
    assert_eq!(limited.status_text(false, "B"), "WATCHING (INOTIFY LIMIT: 2 DIRS)");
    let failed = WatchState::after_root_watch("/r".to_string(), false, true, Err("Permission denied".to_string()));
    assert_eq!(failed.status(false), StatusKind::Failed);
    assert_eq!(failed.status_text(false, "B"), "WATCHER FAILED: Permission denied");
    let no_watcher = WatchState::after_init_failure(false, true, "boom");
    assert_eq!(no_watcher.status_text(false, "B"), "WATCHER FAILED: Init error: boom");
}
