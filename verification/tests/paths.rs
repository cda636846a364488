use treemap_disk_analyzer::paths::{
    extension_of, file_name_of, has_virtual_prefix, is_virtual_or_special_fs, path_components_of,
    relative_components, same_path,
};

#[test]
fn components_follow_std() {
    let cases = ["/a//b/./c/", "./a/b", ".", "", "a/../b", "/", "//x", "a/./", "../x", "./", "/.hidden/f.txt"];
    for c in cases {
        let ours = path_components_of(c);
        let std: Vec<String> =
            std::path::Path::new(c).components().map(|p| p.as_os_str().to_string_lossy().into_owned()).collect();
        assert_eq!(ours, std, "path {c:?}");
    }
}

#[test]
fn file_names_and_extensions_follow_std() {
    let cases = [
        "a.txt", ".bashrc", "archive.tar.gz", "noext", "dir/", "x/..", "/", "trailing.", "..", "a/b.c/d", "a.b/.c",
        "名前.MP4", "",
    ];
    for c in cases {
        let p = std::path::Path::new(c);
        let std_name = p.file_name().map(|s| s.to_string_lossy().into_owned());
        let std_ext = p.extension().map(|s| s.to_string_lossy().into_owned());
        assert_eq!(file_name_of(c), std_name, "file name of {c:?}");
        assert_eq!(extension_of(c), std_ext, "extension of {c:?}");
    }
}

#[test]
fn relative_components_strip_the_base() {
    assert_eq!(relative_components("/t/a/b", "/t"), Some(vec!["a".to_string(), "b".to_string()]));
    assert_eq!(relative_components("/t", "/t/"), Some(vec![]));
    assert_eq!(relative_components("/tx/a", "/t"), None);
    assert_eq!(relative_components("/t", "/t/a"), None);
}

#[test]
fn virtual_trees() {
    assert!(is_virtual_or_special_fs("/proc/1/fd"));
    assert!(is_virtual_or_special_fs("/run"));
    assert!(!is_virtual_or_special_fs("/procfs"));
    assert!(!is_virtual_or_special_fs("proc/x"));
    assert!(has_virtual_prefix("/procfs"));
    assert!(has_virtual_prefix("/dev/null"));
    assert!(!has_virtual_prefix("/run"));
    for p in ["/proc/1", "/sys", "/dev/sda", "/run/user", "/home", "/procfs", "/"] {
        assert_eq!(is_virtual_or_special_fs(p), ["/proc", "/sys", "/dev", "/run"]
            .iter()
            .any(|v| std::path::Path::new(p).starts_with(v)), "{p}");
    }
}

#[test]
fn paths_compare_by_components() {
    assert!(same_path("/a/b", "/a//b/"));
    assert!(!same_path("/a/b", "/a/c"));
    assert!(!same_path("a", "/a"));
}
