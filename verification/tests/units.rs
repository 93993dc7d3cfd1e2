use devinspect::collectors::packets;
use devinspect::collectors::pidstat;
use devinspect::collectors::system::{to_gib, to_mib};
use devinspect::units::{format_uptime, human_bytes};

#[test]
fn packets_test_human_bytes() {
    assert_eq!(packets::human_bytes(500), "500 B");
    assert_eq!(packets::human_bytes(1024), "1.00 KB");
    assert_eq!(packets::human_bytes(1024 * 1024), "1.00 MB");
    assert_eq!(packets::human_bytes(1024 * 1024 * 1024), "1.00 GB");
    assert_eq!(packets::human_bytes(1500 * 1024), "1.46 MB");
}

#[test]
fn pidstat_test_human_bytes() {
    assert_eq!(pidstat::human_bytes(500), "500 B");
    assert_eq!(pidstat::human_bytes(1024), "1.00 KB");
    assert_eq!(pidstat::human_bytes(1024 * 1024), "1.00 MB");
    assert_eq!(pidstat::human_bytes(1024 * 1024 * 1024), "1.00 GB");
}

#[test]
fn human_bytes_edges() {
    assert_eq!(human_bytes(0), "0 B");
    assert_eq!(human_bytes(1023), "1023 B");
    assert_eq!(human_bytes(1048575), "1024.00 KB");
    assert_eq!(human_bytes(1073741823), "1024.00 MB");
    assert_eq!(human_bytes(1536), "1.50 KB");
    assert_eq!(human_bytes(5 * 1024 * 1024 * 1024 / 2), "2.50 GB");
}

#[test]
fn human_bytes_rounds_ties_to_even() {
    // 1152 B is exactly 1.125 KB: the tie goes to the even digit.
    assert_eq!(human_bytes(1152), "1.12 KB");
    // 1.375 KB rounds up to the even digit.
    assert_eq!(human_bytes(1408), "1.38 KB");
}

#[test]
fn human_bytes_matches_float_formatting() {
    for b in [1u64, 999, 1024, 1500, 4096, 123456, 1048576, 7340032, 987654321, 1 << 40, u64::MAX] {
        let expected = if b >= 1_073_741_824 {
            format!("{:.2} GB", b as f64 / 1_073_741_824.0)
        } else if b >= 1_048_576 {
            format!("{:.2} MB", b as f64 / 1_048_576.0)
        } else if b >= 1_024 {
            format!("{:.2} KB", b as f64 / 1_024.0)
        } else {
            format!("{} B", b)
        };
        assert_eq!(human_bytes(b), expected);
    }
}

#[test]
fn human_bytes_largest_value() {
    assert_eq!(human_bytes(u64::MAX), "17179869184.00 GB");
}

#[test]
fn uptime_formatting() {
    assert_eq!(format_uptime(0), "0h 0m 0s");
    assert_eq!(format_uptime(59), "0h 0m 59s");
    assert_eq!(format_uptime(3661), "1h 1m 1s");
    assert_eq!(format_uptime(90061), "25h 1m 1s");
}

#[test]
fn memory_units() {
    assert_eq!(to_mib(1024 * 1024 * 5 + 17), 5);
    assert_eq!(to_mib(1048575), 0);
    assert_eq!(to_gib(3 * 1024 * 1024 * 1024), 3);
    assert_eq!(to_gib(u64::MAX), 17179869183);
}

#[test]
fn human_bytes_agrees_with_float_formatting_on_many_values() {
    let mut x: u64 = 0x9e37_79b9_7f4a_7c15;
    for i in 0..20_000u64 {
        x = x.wrapping_mul(6364136223846793005).wrapping_add(1442695040888963407);
        // Spread the values over all magnitudes.
        let b = x >> (i % 64);
        let expected = if b >= 1_073_741_824 {
            format!("{:.2} GB", b as f64 / 1_073_741_824.0)
        } else if b >= 1_048_576 {
            format!("{:.2} MB", b as f64 / 1_048_576.0)
        } else if b >= 1_024 {
            format!("{:.2} KB", b as f64 / 1_024.0)
        } else {
            format!("{} B", b)
        };
        assert_eq!(human_bytes(b), expected, "for {}", b);
    }
}
