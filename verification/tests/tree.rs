use treemap_disk_analyzer::color::ColorClass;
use treemap_disk_analyzer::tree::{checked_totals, sum_tree_stats, FileNode};

fn node(name: &str, is_dir: bool, size: u64) -> FileNode<(), ()> {
    FileNode::new(name.to_string(), is_dir, size, (), ())
}

fn comps(parts: &[&str]) -> Vec<String> {
    parts.iter().map(|s| s.to_string()).collect()
}

fn sample_tree() -> FileNode<(), ()> {
    let mut root = node("root", true, 0);
    let mut big = node("big", true, 0);
    big.children = vec![node("b1", false, 400), node("b2", false, 200)];
    root.children = vec![big, node("mid", false, 300), node("small", false, 100)];
    root
}

#[test]
fn stats_count_files_and_fix_directory_sizes() {
    let mut root = sample_tree();
    assert_eq!(checked_totals(&root), Some((4, 1000)));
    assert_eq!(sum_tree_stats(&mut root), (4, 1000));
    assert_eq!(root.size_bytes, 1000);
    assert_eq!(root.children[0].size_bytes, 600);
    assert!(!root.is_sorted);
    // a second pass changes nothing
    root.is_sorted = true;
    assert_eq!(sum_tree_stats(&mut root), (4, 1000));
    assert!(root.is_sorted);
}

#[test]
fn stats_of_empty_directory_and_single_file() {
    let mut d = node("d", true, 77);
    assert_eq!(sum_tree_stats(&mut d), (0, 0));
    assert_eq!(d.size_bytes, 0);
    let mut f = node("f", false, 12);
    assert_eq!(sum_tree_stats(&mut f), (1, 12));
}

#[test]
fn checked_totals_detect_overflow() {
    let mut root = node("root", true, 0);
    root.children = vec![node("a", false, u64::MAX), node("b", false, 1)];
    assert_eq!(checked_totals(&root), None);
}

#[test]
fn find_mut_follows_names() {
    let mut root = sample_tree();
    assert_eq!(root.find_mut(&comps(&["big", "b2"])).map(|n| n.size_bytes), Some(200));
    assert!(root.find_mut(&comps(&["big", "nope"])).is_none());
    assert_eq!(root.find_mut(&[]).map(|n| n.name.clone()), Some("root".to_string()));
    if let Some(n) = root.find_mut(&comps(&["mid"])) {
        n.size_bytes = 5;
    }
    assert_eq!(root.children[1].size_bytes, 5);
}

#[test]
fn update_file_size_moves_ancestors() {
    let mut root = sample_tree();
    sum_tree_stats(&mut root);
    root.is_sorted = true;
    assert!(root.update_fits(&comps(&["big", "b1"]), 450));
    assert_eq!(root.update_file_size(&comps(&["big", "b1"]), 450), Some(50));
    assert_eq!(root.children[0].children[0].size_bytes, 450);
    assert_eq!(root.children[0].size_bytes, 650);
    assert_eq!(root.size_bytes, 1050);
    assert!(!root.is_sorted);
    assert_eq!(root.update_file_size(&comps(&["big", "b1"]), 450), Some(0));
    assert_eq!(root.update_file_size(&comps(&["big", "zzz"]), 1), None);
    assert_eq!(root.update_file_size(&comps(&["small"]), 0), Some(-100));
    assert_eq!(root.size_bytes, 950);
}

#[test]
fn update_file_size_never_goes_below_zero() {
    let mut root = node("root", true, 10);
    root.children = vec![node("f", false, 100)];
    assert_eq!(root.update_file_size(&comps(&["f"]), 0), Some(-100));
    assert_eq!(root.size_bytes, 0);
}

#[test]
fn update_fits_detects_overflow() {
    let mut root = node("root", true, i64::MAX as u64);
    root.children = vec![node("f", false, 0)];
    assert!(!root.update_fits(&comps(&["f"]), 1));
    assert!(root.update_fits(&comps(&["g"]), 1));
}

#[test]
fn sorting_children_by_size() {
    let mut root = sample_tree();
    sum_tree_stats(&mut root);
    root.ensure_children_sorted();
    let sizes: Vec<u64> = root.children.iter().map(|c| c.size_bytes).collect();
    assert_eq!(sizes, vec![600, 300, 100]);
    assert!(root.is_sorted);
    // marked sorted: left alone
    root.children.swap(0, 2);
    root.ensure_children_sorted();
    assert_eq!(root.children[0].size_bytes, 100);
    root.sort_children_by_size();
    assert_eq!(root.children[0].size_bytes, 600);
}

#[test]
fn new_nodes_are_coloured() {
    assert_eq!(node("d", true, 0).color, ColorClass::Directory);
    assert_eq!(node("clip.MP4", false, 1).color, ColorClass::Video);
    assert!(node("d", true, 0).children.is_empty());
    assert!(!node("d", true, 0).is_sorted);
}

#[test]
fn sorting_many_children_keeps_them_all() {
    let mut root = node("root", true, 0);
    // sizes with many repeats, in a scrambled order
    root.children = (0..20_000u64).map(|i| node(&format!("f{i}"), false, (i * 7919) % 1000)).collect();
    let mut before: Vec<(String, u64)> = root.children.iter().map(|c| (c.name.clone(), c.size_bytes)).collect();
    root.sort_children_by_size();
    assert!(root.children.windows(2).all(|w| w[0].size_bytes >= w[1].size_bytes));
    let mut after: Vec<(String, u64)> = root.children.iter().map(|c| (c.name.clone(), c.size_bytes)).collect();
    before.sort();
    after.sort();
    assert_eq!(before, after);
    assert_eq!(root.children[0].size_bytes, 999);
    assert_eq!(root.children[19_999].size_bytes, 0);
}

fn shape(n: &FileNode<(), ()>) -> String {
    let kids: Vec<String> = n.children.iter().map(shape).collect();
    format!("{}:{}:{}[{}]", n.name, n.size_bytes, n.is_sorted, kids.join(","))
}

#[test]
fn second_stats_pass_changes_nothing() {
    let mut root = sample_tree();
    root.is_sorted = true;
    let first = sum_tree_stats(&mut root);
    let after_first = shape(&root);
    let second = sum_tree_stats(&mut root);
    assert_eq!(first, (4, 1000));
    assert_eq!(second, first);
    assert_eq!(shape(&root), after_first);
}

#[test]
fn resize_keeps_the_path_consistent_when_elsewhere_is_not() {
    // "big" and the root hold the sums of their children; "other" does not
    let mut root = node("root", true, 0);
    let mut big = node("big", true, 600);
    big.children = vec![node("b1", false, 400), node("b2", false, 200)];
    let mut other = node("other", true, 999);
    other.children = vec![node("o", false, 1)];
    root.children = vec![big, other];
    root.size_bytes = 1599;
    assert_eq!(root.update_file_size(&comps(&["big", "b2"]), 250), Some(50));
    assert_eq!(root.children[0].size_bytes, 650);
    assert_eq!(root.size_bytes, 1649);
    assert_eq!(root.size_bytes, root.children[0].size_bytes + root.children[1].size_bytes);
    assert_eq!(root.children[1].size_bytes, 999);
    let before = shape(&root);
    assert_eq!(root.update_file_size(&comps(&["big", "b2"]), 250), Some(0));
    assert_eq!(shape(&root), before);
}

#[test]
fn resize_through_a_non_directory_keeps_the_path_sums() {
    // the path root -> f -> g passes a node marked as a file
    let mut root = node("root", true, 5);
    let mut f = node("f", false, 5);
    f.children = vec![node("g", false, 5)];
    root.children = vec![f];
    assert_eq!(root.update_file_size(&comps(&["f", "g"]), 7), Some(2));
    assert_eq!(root.children[0].children[0].size_bytes, 7);
    assert_eq!(root.children[0].size_bytes, 7);
    assert_eq!(root.size_bytes, 7);
}
