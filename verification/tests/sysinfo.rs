use kurumi_deploy::sysinfo::{format_bytes, format_uptime, memory_used};

#[test]
fn test_format_uptime() {
    assert_eq!(format_uptime(85 * 86400 + 3600), "85 天 1 小时");
    assert_eq!(format_uptime(7200 + 60), "2 小时 1 分");
    assert_eq!(format_uptime(45), "1 分钟");
}

#[test]
fn test_format_bytes() {
    assert_eq!(format_bytes(1024 * 1024 * 1024 * 7 + 1024 * 1024 * 600), "7.6G");
    assert_eq!(format_bytes(1024 * 1024 * 556), "556.0M");
}

#[test]
fn uptime_edges() {
    assert_eq!(format_uptime(0), "1 分钟");
    assert_eq!(format_uptime(59), "1 分钟");
    assert_eq!(format_uptime(3599), "59 分钟");
    assert_eq!(format_uptime(3600), "1 小时 0 分");
    assert_eq!(format_uptime(86400), "1 天 0 小时");
    assert_eq!(format_uptime(7344000), "85 天 0 小时");
}

#[test]
fn bytes_units_and_rounding() {
    assert_eq!(format_bytes(0), "0B");
    assert_eq!(format_bytes(1023), "1023B");
    assert_eq!(format_bytes(1024), "1.0K");
    assert_eq!(format_bytes(1536), "1.5K");
    assert_eq!(format_bytes(1024 * 1024 - 1), "1024.0K");
    assert_eq!(format_bytes(1u64 << 40), "1.0T");
    assert_eq!(format_bytes(u64::MAX), "16777216.0T");
}

#[test]
fn bytes_agree_with_float_formatting() {
    let samples: [u64; 12] = [
        1024,
        1075,
        1126,
        10 * 1024 + 51,
        1024 * 1024 * 3 + 5 * 104857,
        7 * (1u64 << 30) + 600 * (1u64 << 20),
        123_456_789,
        987_654_321_012,
        (1u64 << 53) + 1,
        (1u64 << 60) + 12345,
        u64::MAX - 1,
        1024 + 512 + 51,
    ];
    for &bytes in samples.iter() {
        let b = bytes as f64;
        let expected = if b >= 1099511627776.0 {
            format!("{:.1}T", b / 1099511627776.0)
        } else if b >= 1073741824.0 {
            format!("{:.1}G", b / 1073741824.0)
        } else if b >= 1048576.0 {
            format!("{:.1}M", b / 1048576.0)
        } else if b >= 1024.0 {
            format!("{:.1}K", b / 1024.0)
        } else {
            format!("{}B", bytes)
        };
        assert_eq!(format_bytes(bytes), expected, "bytes = {}", bytes);
    }
}

#[test]
fn memory_in_use() {
    assert_eq!(memory_used(1000, 100, 300, 50, 50), 700);
    assert_eq!(memory_used(1000, 100, 0, 50, 50), 800);
    assert_eq!(memory_used(100, 100, 0, 50, 50), 0);
    assert_eq!(memory_used(100, 0, 200, 0, 0), 0);
    // with an available figure the other counters are not added up
    assert_eq!(memory_used(1000, u64::MAX, 400, u64::MAX, u64::MAX), 600);
}
