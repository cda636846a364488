use std::hash::{BuildHasher, BuildHasherDefault, DefaultHasher, Hash, Hasher};
use treemap_disk_analyzer::color::{
    can_color_name, can_color_path, color_for_name, color_for_path, extension_class, get_color_for_filename, hashed_color,
    name_hash, name_hash_fits, ColorClass,
};

#[test]
fn full_viewer_classes() {
    assert_eq!(get_color_for_filename("movie.mkv"), ColorClass::Video);
    assert_eq!(get_color_for_filename("MOVIE.MKV"), ColorClass::Video);
    assert_eq!(get_color_for_filename("song.Flac"), ColorClass::Audio);
    assert_eq!(get_color_for_filename("pic.GIF"), ColorClass::Image);
    assert_eq!(get_color_for_filename("a.rar"), ColorClass::Archive);
    assert_eq!(get_color_for_filename("main.h"), ColorClass::Source);
    assert_eq!(get_color_for_filename("lib.so"), ColorClass::Executable);
}

#[test]
fn full_viewer_hashed_colour() {
    for name in ["Makefile", ".mp4", "data.bin2", "x.tar.bz2"] {
        let mut h = DefaultHasher::new();
        name.hash(&mut h);
        let h = h.finish();
        assert_eq!(h, BuildHasherDefault::<DefaultHasher>::default().hash_one(name));
        let expected =
            ColorClass::Hashed(((h >> 16) % 160 + 80) as u8, ((h >> 8) % 160 + 80) as u8, (h % 160 + 80) as u8);
        assert_eq!(get_color_for_filename(name), expected, "{name}");
    }
}

#[test]
fn basic_viewer_classes() {
    assert_eq!(color_for_name("a.md"), ColorClass::Source);
    assert_eq!(color_for_name("a.svg"), ColorClass::Image);
    assert_eq!(color_for_name("a.mp3"), ColorClass::Media);
    assert_eq!(color_for_name("a.7z"), ColorClass::Archive);
    // the basic viewer does not lowercase, and has no "ts"
    let h = "A.MD".bytes().fold(0u32, |acc, b| acc.wrapping_add(b as u32));
    assert_eq!(name_hash("A.MD"), h);
    assert_eq!(
        color_for_name("A.MD"),
        ColorClass::Hashed((h * 37 % 160 + 80) as u8, (h * 59 % 160 + 80) as u8, (h * 83 % 160 + 80) as u8)
    );
    assert!(matches!(color_for_name("a.ts"), ColorClass::Hashed(..)));
    assert_eq!(color_for_path("/x/y/a.ts"), ColorClass::Source);
    let h = "noext".bytes().fold(0u32, |acc, b| acc.wrapping_add(b as u32));
    assert_eq!(
        color_for_path("/some/dir/noext"),
        ColorClass::Hashed((h * 37 % 160 + 80) as u8, (h * 59 % 160 + 80) as u8, (h * 83 % 160 + 80) as u8)
    );
}

#[test]
fn name_hash_bound() {
    assert!(name_hash_fits("还还还.txt"));
    assert_eq!(name_hash("还"), 0xe8 + 0xbf + 0x98);
}

#[test]
fn basic_colour_needs_the_hash_only_without_a_known_extension() {
    // 150000 two-byte characters: the byte sum (54.6 million) is past the
    // point where the colour arithmetic would overflow 32 bits
    let long: String = "é".repeat(150_000);
    assert!(!name_hash_fits(&long));
    assert!(!can_color_name(&long));
    let source = format!("{long}.rs");
    assert!(can_color_name(&source));
    assert_eq!(color_for_name(&source), ColorClass::Source);
    let path = format!("/d/{long}.ts");
    assert!(can_color_path(&path));
    assert_eq!(color_for_path(&path), ColorClass::Source);
    assert!(!can_color_path(&format!("/d/{long}")));
    assert!(can_color_name("short_name"));
    assert!(can_color_path("/d/short_name"));
}

#[test]
fn full_viewer_extension_classes_and_hash_bytes() {
    assert_eq!(extension_class("mov"), Some(ColorClass::Video));
    assert_eq!(extension_class("ogg"), Some(ColorClass::Audio));
    assert_eq!(extension_class("webp"), Some(ColorClass::Image));
    assert_eq!(extension_class("7z"), Some(ColorClass::Archive));
    assert_eq!(extension_class("ts"), Some(ColorClass::Source));
    assert_eq!(extension_class("dll"), Some(ColorClass::Executable));
    assert_eq!(extension_class("MOV"), None);
    assert_eq!(extension_class(""), None);
    // h = 0x01_02_03: bytes (0x01 % 160 + 80, 0x0102 % 160 + 80, 0x010203 % 160 + 80)
    assert_eq!(hashed_color(0x010203), ColorClass::Hashed(81, (0x0102 % 160 + 80) as u8, (0x010203 % 160 + 80) as u8));
    assert_eq!(hashed_color(0), ColorClass::Hashed(80, 80, 80));
    assert_eq!(hashed_color(u64::MAX), ColorClass::Hashed(
        ((u64::MAX >> 16) % 160 + 80) as u8,
        ((u64::MAX >> 8) % 160 + 80) as u8,
        (u64::MAX % 160 + 80) as u8,
    ));
}
