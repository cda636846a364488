use std::path::PathBuf;
use treemap_disk_analyzer::args::{root_name, target_from_args, wants_headless};

#[test]
fn target_arg_parsing_skips_flags() {
    let args = vec!["treemap-disk-analyzer".to_string(), "--headless".to_string(), "/tmp".to_string()];
    assert_eq!(PathBuf::from(target_from_args(&args)), PathBuf::from("/tmp"));
    let bare = vec!["treemap-disk-analyzer".to_string()];
    assert_eq!(PathBuf::from(target_from_args(&bare)), PathBuf::from("."));
}

#[test]
fn target_skips_scan_only_and_takes_first_other() {
    let args: Vec<String> = ["prog", "--scan-only", "--headless", "a", "b"].iter().map(|s| s.to_string()).collect();
    assert_eq!(target_from_args(&args), "a");
    let flags_only: Vec<String> = ["prog", "--scan-only"].iter().map(|s| s.to_string()).collect();
    assert_eq!(target_from_args(&flags_only), ".");
    let empty: Vec<String> = Vec::new();
    assert_eq!(target_from_args(&empty), ".");
}

#[test]
fn headless_flag_detection() {
    let with: Vec<String> = ["prog", "/tmp", "--scan-only"].iter().map(|s| s.to_string()).collect();
    assert!(wants_headless(&with));
    let without: Vec<String> = ["prog", "/tmp", "--headlessx"].iter().map(|s| s.to_string()).collect();
    assert!(!wants_headless(&without));
}

#[test]
fn root_names() {
    assert_eq!(root_name("/home/user/data"), "data");
    assert_eq!(root_name("/"), "/");
    assert_eq!(root_name("/tmp/x/"), "x");
    assert_eq!(root_name("/tmp/.."), "/tmp/..");
}
