use treemap_disk_analyzer::report::headless_report;
use treemap_disk_analyzer::scan::{build_directory_batch, merge_scan_batch, DirectoryBatch, EntryKind, ScannedEntry};
use treemap_disk_analyzer::tree::FileNode;

fn entry(name: &str, path: &str, kind: EntryKind) -> ScannedEntry {
    ScannedEntry { name: name.to_string(), path: path.to_string(), kind }
}

/// The fixture of a small directory: two files at the top, one in `sub/`.
#[test]
fn headless_summary_lists_files_and_totals() {
    let target = "/tmp/fixture".to_string();
    let mut root: FileNode<(), ()> = FileNode::new("fixture".to_string(), true, 0, (), ());
    let (top, subdirs): (DirectoryBatch<(), ()>, Vec<usize>) = build_directory_batch(
        target.clone(),
        vec![
            entry("hello.txt", "/tmp/fixture/hello.txt", EntryKind::File(100)),
            entry("Bericht-还.txt", "/tmp/fixture/Bericht-还.txt", EntryKind::File(30)),
            entry("sub", "/tmp/fixture/sub", EntryKind::Directory),
        ],
        true,
        (),
        (),
    );
    assert_eq!(subdirs, vec![2]);
    assert!(merge_scan_batch(&mut root, &target, top));
    let (sub, _): (DirectoryBatch<(), ()>, Vec<usize>) = build_directory_batch(
        "/tmp/fixture/sub".to_string(),
        vec![entry("daten-还.bin", "/tmp/fixture/sub/daten-还.bin", EntryKind::File(50))],
        true,
        (),
        (),
    );
    assert!(merge_scan_batch(&mut root, &target, sub));
    let lines = headless_report("fixture", &mut root);
    assert_eq!(lines[0], "fixture: 180.00 B in 3 files");
    assert_eq!(lines[1], "100.00 B\thello.txt");
    assert_eq!(lines[2], "50.00 B\tsub/");
    assert_eq!(lines[3], "30.00 B\tBericht-还.txt");
    assert_eq!(lines.len(), 4);
    let listed: u64 = root.children.iter().map(|c| c.size_bytes).sum();
    assert_eq!(listed, 180);
}

#[test]
fn headless_summary_of_empty_directory() {
    let mut root: FileNode<(), ()> = FileNode::new("e".to_string(), true, 5, (), ());
    let lines = headless_report("e", &mut root);
    assert_eq!(lines, vec!["e: 0.00 B in 0 files".to_string()]);
    assert_eq!(root.size_bytes, 0);
}
