use treemap_disk_analyzer::text::truncate_label;

#[test]
fn truncate_ascii_label() {
    assert_eq!(truncate_label("hello world", 8), "hello ..");
    assert_eq!(truncate_label("hi", 8), "hi");
    assert_eq!(truncate_label("12345678", 8), "12345678");
}

#[test]
fn truncate_cjk_label_never_panics() {
    assert_eq!(truncate_label("abc还def", 6), "abc还..");
    assert_eq!(truncate_label("abc还def", 7), "abc还def");
    assert_eq!(truncate_label("还还还还还", 4), "还还..");
}

#[test]
fn truncate_emoji_and_narrow_width() {
    assert_eq!(truncate_label("a🦀b", 3), "a🦀b");
    assert_eq!(truncate_label("a🦀bcd", 4), "a🦀..");
    assert_eq!(truncate_label("anything", 3), "anything");
    assert_eq!(truncate_label("anything", 2), "anything");
}

#[test]
fn truncated_label_never_exceeds_width() {
    let label = "Bericht-还-über-alles-🦀-final.txt";
    for width in 4..40usize {
        let shown = truncate_label(label, width);
        assert!(shown.chars().count() <= width, "width {width}: {shown}");
        if shown != label {
            assert!(shown.ends_with(".."));
            let kept: String = label.chars().take(width - 2).collect();
            assert!(shown.starts_with(&kept));
        }
    }
}

#[test]
fn truncate_empty_and_exact_width() {
    assert_eq!(truncate_label("", 10), "");
    assert_eq!(truncate_label("abcd", 4), "abcd");
    assert_eq!(truncate_label("abcde", 4), "ab..");
}
