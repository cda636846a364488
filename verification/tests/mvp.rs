use treemap_disk_analyzer::color::ColorClass;
use treemap_disk_analyzer::mvp::{file_is_kept, Node};
use treemap_disk_analyzer::order::sort_by_size_desc;

#[test]
fn directories_sum_what_they_keep() {
    let mut sub: Node<()> = Node::new_dir("sub".to_string(), ());
    sub.absorb_file("a.rs".to_string(), 10, ());
    sub.absorb_file("empty".to_string(), 0, ());
    sub.absorb_file("huge".to_string(), 1 << 48, ());
    assert_eq!(sub.size, 10);
    assert_eq!(sub.children.len(), 1);
    assert_eq!(sub.children[0].color, ColorClass::Source);
    let mut root: Node<()> = Node::new_dir("root".to_string(), ());
    root.absorb_dir(sub);
    root.absorb_dir(Node::new_dir("nothing".to_string(), ()));
    root.absorb_file("b.png".to_string(), 5, ());
    assert_eq!(root.size, 15);
    assert_eq!(root.children.len(), 2);
    let sum: u64 = root.children.iter().map(|c| c.size).sum();
    assert_eq!(sum, root.size);
}

#[test]
fn path_keyed_files_are_counted() {
    let mut root: Node<()> = Node::new_dir("/t".to_string(), ());
    root.attach_file("/t/a.zip".to_string(), 7, ());
    root.attach_file("/t/empty".to_string(), 0, ());
    assert_eq!(root.size, 7);
    assert_eq!(root.children.len(), 1);
    assert_eq!(root.children[0].name, "/t/a.zip");
    assert_eq!(root.children[0].color, ColorClass::Archive);
}

#[test]
fn nodes_sort_largest_first() {
    let mut v: Vec<Node<u8>> = Vec::new();
    for (i, s) in [3u64, 9, 1, 9, 4].iter().enumerate() {
        let mut n = Node::new_dir(format!("n{i}"), i as u8);
        n.size = *s;
        v.push(n);
    }
    sort_by_size_desc(&mut v);
    let sizes: Vec<u64> = v.iter().map(|n| n.size).collect();
    assert_eq!(sizes, vec![9, 9, 4, 3, 1]);
}

#[test]
fn path_keyed_tree_sums_files_and_subdirectories() {
    // f.txt of 100 bytes beside sub/ holding g.bin of 50 bytes
    let mut sub: Node<()> = Node::new_dir("/d/sub".to_string(), ());
    sub.attach_file("/d/sub/g.bin".to_string(), 50, ());
    let mut root: Node<()> = Node::new_dir("/d".to_string(), ());
    root.attach_file("/d/f.txt".to_string(), 100, ());
    root.absorb_dir(sub);
    assert_eq!(root.size, 150);
    assert_eq!(root.children[0].size, 100);
    assert_eq!(root.children[1].size, 50);
    assert_eq!(root.children[1].children[0].name, "/d/sub/g.bin");
}

#[test]
fn basic_scan_keep_rule() {
    assert!(!file_is_kept(0));
    assert!(file_is_kept(1));
    assert!(file_is_kept((1 << 48) - 1));
    assert!(!file_is_kept(1 << 48));
    assert!(!file_is_kept(u64::MAX));
}
