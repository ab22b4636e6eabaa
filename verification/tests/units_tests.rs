use beam_tunnel::units::format_bytes;

// The same count written by way of floating point.
fn in_floating_point(bytes: u64) -> String {
    const KB: u64 = 1024;
    const MB: u64 = KB * 1024;
    const GB: u64 = MB * 1024;

    if bytes >= GB {
        format!("{:.2} GB", bytes as f64 / GB as f64)
    } else if bytes >= MB {
        format!("{:.2} MB", bytes as f64 / MB as f64)
    } else if bytes >= KB {
        format!("{:.2} KB", bytes as f64 / KB as f64)
    } else {
        format!("{} B", bytes)
    }
}

#[test]
fn byte_counts_are_written_in_the_largest_unit() {
    assert_eq!(format_bytes(0), "0 B");
    assert_eq!(format_bytes(1), "1 B");
    assert_eq!(format_bytes(1023), "1023 B");
    assert_eq!(format_bytes(1024), "1.00 KB");
    assert_eq!(format_bytes(1536), "1.50 KB");
    assert_eq!(format_bytes(1024 * 1024 - 1), "1024.00 KB");
    assert_eq!(format_bytes(1024 * 1024), "1.00 MB");
    assert_eq!(format_bytes(5 * 1024 * 1024 + 512 * 1024), "5.50 MB");
    assert_eq!(format_bytes(1024 * 1024 * 1024), "1.00 GB");
    assert_eq!(format_bytes(3 * 1024 * 1024 * 1024 + 256 * 1024 * 1024), "3.25 GB");
    assert_eq!(format_bytes(u64::MAX), "17179869184.00 GB");
}

#[test]
fn ties_go_to_the_even_hundredth() {
    // 1.125 and 1.375 KiB lie exactly between two hundredths.
    assert_eq!(format_bytes(1152), "1.12 KB");
    assert_eq!(format_bytes(1408), "1.38 KB");
    assert_eq!(format_bytes(1024 + 5), "1.00 KB");
    assert_eq!(format_bytes(1024 + 6), "1.01 KB");
}

#[test]
fn byte_counts_agree_with_floating_point() {
    let mut values: Vec<u64> = vec![0, 1, 1023, 1024, 1025, 1152, 1408, 2047, 2048, u64::MAX];
    for shift in 9..64u32 {
        let p = 1u64 << shift;
        for delta in [0u64, 1, 2, 3, 5, 127, 128, 129, 511, 512, 513] {
            values.push(p.wrapping_add(delta));
            values.push(p.wrapping_sub(delta));
            values.push((p / 100).wrapping_mul(delta));
        }
    }
    // Every tie among the KiB, and their neighbours.
    for k in 0..2048u64 {
        values.push(1024 + 128 + 256 * k);
        values.push(1024 + 127 + 256 * k);
        values.push(1024 + 129 + 256 * k);
    }
    let mut x: u64 = 0x9E3779B97F4A7C15;
    for _ in 0..20000 {
        x ^= x << 13;
        x ^= x >> 7;
        x ^= x << 17;
        values.push(x);
        values.push(x >> 11);
        values.push(x >> 24);
        values.push(x >> 40);
        values.push(x >> 52);
    }
    for v in values {
        assert_eq!(format_bytes(v), in_floating_point(v), "{}", v);
    }
}
