use treemap_disk_analyzer::mvp::format_bytes as format_bytes_1;
use treemap_disk_analyzer::report::format_bytes as format_bytes_2;

#[test]
fn test_format_bytes() {
    assert_eq!(format_bytes_1(0), "0.0 B");
    assert_eq!(format_bytes_1(100), "100.0 B");
    assert_eq!(format_bytes_1(2048), "2.0 KB");
    assert_eq!(format_bytes_1(5242880), "5.0 MB");
}

fn float_format(b: u64, decimals: usize) -> String {
    let units = ["B", "KB", "MB", "GB", "TB"];
    let mut d = b as f64;
    let mut i = 0;
    while d >= 1024.0 && i < 4 {
        d /= 1024.0;
        i += 1;
    }
    format!("{:.*} {}", decimals, d, units[i])
}

fn samples() -> Vec<u64> {
    let mut v: Vec<u64> = vec![
        0, 1, 9, 10, 99, 100, 999, 1000, 1023, 1024, 1025, 1075, 1076, 1126, 1127, 2047, 2048, 2304, 2355,
        2457, 2560, 10240, 1048575, 1048576, 1572864, 1073741823, 1073741824, 1099511627775, 1099511627776,
        5242880, 123456789, 987654321012, 1 << 52, (1 << 53) - 1, 1 << 53, (1 << 53) + 1, (1 << 53) + 3,
        (1 << 54) + 2, (1 << 54) + 6, u64::MAX, u64::MAX - 1, u64::MAX / 3, 1 << 63, (1 << 63) + 1025,
    ];
    // values that land exactly half way between two shown values
    for k in 0..200u64 {
        v.push(1024 * k + 512);
        v.push(1024 * k + 256);
        v.push(1024 * k + 768);
        v.push(1024 * k + 51);
        v.push(1024 * k + 52);
    }
    let mut x: u64 = 0x9e37_79b9_7f4a_7c15;
    for _ in 0..2000 {
        x ^= x << 13;
        x ^= x >> 7;
        x ^= x << 17;
        v.push(x >> (x % 64));
    }
    v
}

#[test]
fn format_matches_double_arithmetic_one_decimal() {
    for b in samples() {
        assert_eq!(format_bytes_1(b), float_format(b, 1), "bytes {b}");
    }
}

#[test]
fn format_matches_double_arithmetic_two_decimals() {
    for b in samples() {
        assert_eq!(format_bytes_2(b), float_format(b, 2), "bytes {b}");
    }
}

#[test]
fn format_exact_values() {
    assert_eq!(format_bytes_2(0), "0.00 B");
    assert_eq!(format_bytes_2(1023), "1023.00 B");
    assert_eq!(format_bytes_2(1536), "1.50 KB");
    assert_eq!(format_bytes_2(180), "180.00 B");
    assert_eq!(format_bytes_1(2304), "2.2 KB");
    assert_eq!(format_bytes_1(2355), "2.3 KB");
    assert_eq!(format_bytes_1(1048575), "1024.0 KB");
    assert_eq!(format_bytes_2(u64::MAX), "16777216.00 TB");
    assert_eq!(format_bytes_1(1 << 50), "1024.0 TB");
}

#[test]
fn small_sizes_are_exact() {
    for b in 0..1024u64 {
        assert_eq!(format_bytes_1(b), format!("{b}.0 B"));
        assert_eq!(format_bytes_2(b), format!("{b}.00 B"));
    }
}
