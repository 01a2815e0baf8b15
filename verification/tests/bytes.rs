use sunix::bytes::{format_bytes, format_signed_bytes, trim_float};

/// The formatting written the float way, to compare against.
fn float_format_bytes(bytes: i64) -> String {
    let mut value = bytes.abs() as f64;
    let units = ["B", "KiB", "MiB", "GiB", "TiB"];
    let mut unit = units[0];
    for next_unit in &units[1..] {
        if value < 1024.0 {
            break;
        }
        value /= 1024.0;
        unit = next_unit;
    }
    if unit == "B" {
        return format!("{} B", bytes.abs());
    }
    let precision = if value >= 100.0 {
        0
    } else if value >= 10.0 {
        1
    } else {
        2
    };
    let mut text = format!("{:.*}", precision, value);
    while text.contains('.') && text.ends_with('0') {
        text.pop();
    }
    if text.ends_with('.') {
        text.pop();
    }
    format!("{} {}", text, unit)
}

#[test]
fn formats_known_sizes() {
    assert_eq!(format_bytes(0), "0 B");
    assert_eq!(format_bytes(1023), "1023 B");
    assert_eq!(format_bytes(-216), "216 B");
    assert_eq!(format_bytes(1024), "1 KiB");
    assert_eq!(format_bytes(2048), "2 KiB");
    assert_eq!(format_bytes(20408), "19.9 KiB");
    assert_eq!(format_bytes(1099464), "1.05 MiB");
    assert_eq!(format_bytes(10519768), "10 MiB");
    assert_eq!(format_bytes(i64::MAX), "8388608 TiB");
}

#[test]
fn formats_signed_sizes() {
    assert_eq!(format_signed_bytes(216), "+216 B");
    assert_eq!(format_signed_bytes(-147424), "-144 KiB");
    assert_eq!(format_signed_bytes(0), "0 B");
    assert_eq!(format_signed_bytes(-8400), "-8.2 KiB");
    assert_eq!(format_signed_bytes(-1368176), "-1.3 MiB");
}

#[test]
fn trims_float_text() {
    assert_eq!(trim_float("1.50".to_string()), "1.5");
    assert_eq!(trim_float("2.00".to_string()), "2");
    assert_eq!(trim_float("100".to_string()), "100");
    assert_eq!(trim_float("10.0".to_string()), "10");
}

#[test]
fn agrees_with_float_formatting() {
    let mut samples: Vec<i64> = vec![1152, 1048576 + 5242, 10 * 1024 + 51, 99 * 1024 + 1019];
    for n in 0..20000i64 {
        samples.push(n * 37);
        samples.push(n * 1024 + 512);
        samples.push(n * 1048576 / 7);
    }
    for shift in 0..63u32 {
        let base = 1i64 << shift;
        for delta in [-3i64, -1, 0, 1, 3, 5, 1023, 4095] {
            let v = base.saturating_add(delta);
            if v >= 0 {
                samples.push(v);
                samples.push(v.saturating_mul(3) / 2);
            }
        }
    }
    let mut x: u64 = 0x9e3779b97f4a7c15;
    for _ in 0..200000 {
        x ^= x << 13;
        x ^= x >> 7;
        x ^= x << 17;
        let v = (x >> (x % 63)) as i64;
        samples.push(v);
        samples.push(-(v / 3));
    }
    for v in samples {
        assert_eq!(format_bytes(v), float_format_bytes(v), "bytes {v}");
    }
}
