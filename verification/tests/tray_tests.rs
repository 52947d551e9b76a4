use claw::tray::human_size_from_bytes;

#[test]
fn small_sizes_in_kib() {
    assert_eq!(human_size_from_bytes(0), "0 KB");
    assert_eq!(human_size_from_bytes(1024), "1 KB");
    assert_eq!(human_size_from_bytes(10 * 1024), "10 KB");
    assert_eq!(human_size_from_bytes(524288), "512 KB");
}

#[test]
fn kib_rounding_half_to_even() {
    // 512 bytes is exactly half a KiB: ties round to even
    assert_eq!(human_size_from_bytes(512), "0 KB");
    assert_eq!(human_size_from_bytes(1536), "2 KB");
    assert_eq!(human_size_from_bytes(2560), "2 KB");
    assert_eq!(human_size_from_bytes(1535), "1 KB");
    assert_eq!(human_size_from_bytes(1537), "2 KB");
}

#[test]
fn large_sizes_in_tenths_of_mib() {
    assert_eq!(human_size_from_bytes(1048576), "1.0 MB");
    assert_eq!(human_size_from_bytes(1572864), "1.5 MB");
    assert_eq!(human_size_from_bytes(5 * 1024 * 1024), "5.0 MB");
    assert_eq!(human_size_from_bytes(2411724), "2.3 MB");
}

#[test]
fn matches_float_formatting() {
    let sizes: Vec<usize> = vec![
        0, 1, 511, 512, 513, 1023, 1024, 1025, 1536, 2560, 65536, 1048575, 1048576, 1153433,
        1258291, 5242880, 12345678, 123456789,
    ];
    for sz in sizes {
        let kb = sz as f64 / 1024.0;
        let expected = if kb < 1024.0 {
            format!("{:.0} KB", kb)
        } else {
            format!("{:.1} MB", kb / 1024.0)
        };
        assert_eq!(human_size_from_bytes(sz), expected, "mismatch at {}", sz);
    }
}
