use oxide_explorer::format::format_size;

fn float_rendering(bytes: u64) -> String {
    const KB: u64 = 1024;
    const MB: u64 = 1024 * KB;
    const GB: u64 = 1024 * MB;
    if bytes >= GB {
        format!("{:.1} GB", bytes as f64 / GB as f64)
    } else if bytes >= MB {
        format!("{:.1} MB", bytes as f64 / MB as f64)
    } else if bytes >= KB {
        format!("{:.1} KB", bytes as f64 / KB as f64)
    } else {
        format!("{bytes} B")
    }
}

#[test]
fn format_size_small_values() {
    assert_eq!(format_size(0), "0 B");
    assert_eq!(format_size(1), "1 B");
    assert_eq!(format_size(1023), "1023 B");
}

#[test]
fn format_size_units() {
    assert_eq!(format_size(1024), "1.0 KB");
    assert_eq!(format_size(1536), "1.5 KB");
    assert_eq!(format_size(1048576), "1.0 MB");
    assert_eq!(format_size(1073741824), "1.0 GB");
    assert_eq!(format_size(5 * 1073741824 + 536870912), "5.5 GB");
}

#[test]
fn format_size_ties_round_to_even() {
    // 1280 bytes is exactly 1.25 KB and 1792 bytes exactly 1.75 KB
    assert_eq!(format_size(1280), float_rendering(1280));
    assert_eq!(format_size(1792), float_rendering(1792));
}

#[test]
fn format_size_agrees_with_float_formatting() {
    let mut v: u64 = 0;
    while v < 3_000_000 {
        assert_eq!(format_size(v), float_rendering(v), "at {v}");
        v += 1;
    }
    let mut x: u64 = 1;
    for _ in 0..200000 {
        x = x.wrapping_mul(6364136223846793005).wrapping_add(1442695040888963407);
        for shift in [0u32, 8, 16, 24, 32, 40] {
            let b = x >> shift;
            assert_eq!(format_size(b), float_rendering(b), "at {b}");
        }
    }
    for b in [u64::MAX, u64::MAX - 1, 1u64 << 53, (1u64 << 53) + 1, (1u64 << 54) + 3, 9007199254740993] {
        assert_eq!(format_size(b), float_rendering(b), "at {b}");
    }
}
