use treemap_disk_analyzer::scan::{build_directory_batch, merge_scan_batch, DirectoryBatch, EntryKind, ScannedEntry};
use treemap_disk_analyzer::tree::{merge_scanned_node, FileNode};

fn node(name: &str, is_dir: bool, size: u64) -> FileNode<(), ()> {
    FileNode::new(name.to_string(), is_dir, size, (), ())
}

#[test]
fn merge_scan_batch_reports_whether_tree_changed() {
    let target = "/tmp/treemap-merge-probe".to_string();
    let mut root = node("root", true, 0);
    let batch = DirectoryBatch { parent_path: target.clone(), children: vec![node("a.txt", false, 10)] };
    assert!(merge_scan_batch(&mut root, &target, batch));
    assert_eq!(root.children.len(), 1);
    let orphan = DirectoryBatch { parent_path: format!("{}/nope", target), children: vec![node("b.txt", false, 5)] };
    assert!(!merge_scan_batch(&mut root, &target, orphan));
    assert_eq!(root.children.len(), 1);
}

#[test]
fn batch_outside_target_is_ignored() {
    let mut root = node("root", true, 0);
    let batch = DirectoryBatch { parent_path: "/elsewhere".to_string(), children: vec![node("a", false, 1)] };
    assert!(!merge_scan_batch(&mut root, "/tmp/t", batch));
    assert!(root.children.is_empty());
}

#[test]
fn nested_batches_land_in_their_directory() {
    let mut root = node("root", true, 0);
    let top = DirectoryBatch { parent_path: "/t".to_string(), children: vec![node("sub", true, 0), node("f", false, 3)] };
    assert!(merge_scan_batch(&mut root, "/t", top));
    let sub = DirectoryBatch { parent_path: "/t/sub".to_string(), children: vec![node("g", false, 7)] };
    assert!(merge_scan_batch(&mut root, "/t/", sub));
    assert_eq!(root.children[0].name, "sub");
    assert_eq!(root.children[0].children.len(), 1);
    assert_eq!(root.children[0].children[0].size_bytes, 7);
}

#[test]
fn merging_twice_does_not_duplicate() {
    let mut root = node("root", true, 0);
    merge_scanned_node(&mut root, node("a", false, 4));
    merge_scanned_node(&mut root, node("a", false, 4));
    assert_eq!(root.children.len(), 1);
    merge_scanned_node(&mut root, node("a", false, 9));
    assert_eq!(root.children.len(), 1);
    assert_eq!(root.children[0].size_bytes, 9);
    // same name, other kind: a separate entry
    merge_scanned_node(&mut root, node("a", true, 0));
    assert_eq!(root.children.len(), 2);
}

#[test]
fn merging_a_directory_merges_its_children() {
    let mut root = node("root", true, 0);
    let mut d = node("d", true, 0);
    d.children.push(node("x", false, 1));
    merge_scanned_node(&mut root, d);
    let mut d2 = node("d", true, 0);
    d2.children.push(node("x", false, 2));
    d2.children.push(node("y", false, 3));
    merge_scanned_node(&mut root, d2);
    assert_eq!(root.children.len(), 1);
    let kids = &root.children[0].children;
    assert_eq!(kids.len(), 2);
    assert_eq!(kids[0].size_bytes, 2);
    assert_eq!(kids[1].name, "y");
}

#[test]
fn new_children_take_the_parent_placement() {
    let mut root: FileNode<(i32, i32), u8> = FileNode::new("root".to_string(), true, 0, (5, 7), 1);
    root.is_sorted = true;
    merge_scanned_node(&mut root, FileNode::new("a".to_string(), false, 1, (0, 0), 9));
    assert_eq!(root.children[0].placement, (5, 7));
    assert_eq!(root.children[0].activity, 9);
    assert!(!root.is_sorted);
}

fn entry(name: &str, path: &str, kind: EntryKind) -> ScannedEntry {
    ScannedEntry { name: name.to_string(), path: path.to_string(), kind }
}

#[test]
fn directory_listing_becomes_batch() {
    let entries = vec![
        entry("a.txt", "/d/a.txt", EntryKind::File(5)),
        entry("link", "/d/link", EntryKind::Skipped),
        entry("sub", "/d/sub", EntryKind::Directory),
        entry("huge", "/d/huge", EntryKind::File((1u64 << 48) + 1)),
        entry("edge", "/d/edge", EntryKind::File(1u64 << 48)),
        entry("empty", "/d/empty", EntryKind::File(0)),
    ];
    let (batch, subdirs): (DirectoryBatch<(), ()>, Vec<usize>) =
        build_directory_batch("/d".to_string(), entries, true, (), ());
    assert_eq!(batch.parent_path, "/d");
    let names: Vec<&str> = batch.children.iter().map(|c| c.name.as_str()).collect();
    assert_eq!(names, vec!["a.txt", "sub", "edge", "empty"]);
    assert!(batch.children[1].is_dir);
    assert_eq!(batch.children[1].size_bytes, 0);
    assert_eq!(subdirs, vec![2]);
}

#[test]
fn virtual_subdirectories_are_skipped_on_request() {
    let entries = vec![
        entry("proc", "/proc", EntryKind::Directory),
        entry("home", "/home", EntryKind::Directory),
    ];
    let (batch, subdirs): (DirectoryBatch<(), ()>, Vec<usize>) =
        build_directory_batch("/".to_string(), entries, true, (), ());
    assert_eq!(batch.children.len(), 1);
    assert_eq!(subdirs, vec![1]);
    let entries = vec![
        entry("proc", "/proc", EntryKind::Directory),
        entry("home", "/home", EntryKind::Directory),
    ];
    let (batch, subdirs): (DirectoryBatch<(), ()>, Vec<usize>) =
        build_directory_batch("/".to_string(), entries, false, (), ());
    assert_eq!(batch.children.len(), 2);
    assert_eq!(subdirs, vec![0, 1]);
}

fn shape(n: &FileNode<(), ()>) -> String {
    let kids: Vec<String> = n.children.iter().map(shape).collect();
    format!("{}:{}:{}:{}[{}]", n.name, n.is_dir, n.size_bytes, n.is_sorted, kids.join(","))
}

fn listing() -> Vec<ScannedEntry> {
    let e = |name: &str, kind: EntryKind| ScannedEntry { name: name.to_string(), path: format!("/t/{name}"), kind };
    vec![e("sub", EntryKind::Directory), e("a", EntryKind::File(4)), e("sub", EntryKind::File(9)), e("ln", EntryKind::Skipped)]
}

#[test]
fn a_directory_scanned_twice_ends_as_scanned_once() {
    let mut root = node("root", true, 0);
    let (batch, subdirs) = build_directory_batch("/t".to_string(), listing(), true, (), ());
    assert_eq!(subdirs, vec![0]);
    assert!(merge_scan_batch(&mut root, "/t", batch));
    let once = shape(&root);
    assert_eq!(once, "root:true:0:false[sub:true:0:false[],a:false:4:false[],sub:false:9:false[]]");
    let (again, _) = build_directory_batch("/t".to_string(), listing(), true, (), ());
    assert!(merge_scan_batch(&mut root, "/t", again));
    assert_eq!(shape(&root), once);
}
