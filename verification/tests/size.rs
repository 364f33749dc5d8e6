use xeedee_cli::size::humanize_bytes;

fn with_floats(n: u64) -> String {
    const UNITS: [&str; 6] = ["B", "KiB", "MiB", "GiB", "TiB", "PiB"];
    if n < 1024 {
        return format!("{n} B");
    }
    let mut v = n as f64;
    let mut idx = 0usize;
    while v >= 1024.0 && idx < UNITS.len() - 1 {
        v /= 1024.0;
        idx += 1;
    }
    format!("{v:.2} {}", UNITS[idx])
}

#[test]
fn exact_sizes() {
    assert_eq!(humanize_bytes(0), "0 B");
    assert_eq!(humanize_bytes(1023), "1023 B");
    assert_eq!(humanize_bytes(1024), "1.00 KiB");
    assert_eq!(humanize_bytes(1536), "1.50 KiB");
    assert_eq!(humanize_bytes(1048575), "1024.00 KiB");
    assert_eq!(humanize_bytes(1048576), "1.00 MiB");
    assert_eq!(humanize_bytes(u64::MAX), "16384.00 PiB");
}

#[test]
fn small_sizes_match_floats() {
    for n in 0..70_000u64 {
        assert_eq!(humanize_bytes(n), with_floats(n));
    }
}

#[test]
fn spread_sizes_match_floats() {
    let mut x: u64 = 0x9e37_79b9_7f4a_7c15;
    for _ in 0..40_000 {
        x ^= x << 13;
        x ^= x >> 7;
        x ^= x << 17;
        let n = x >> (x % 60);
        assert_eq!(humanize_bytes(n), with_floats(n), "{n}");
    }
}

#[test]
fn sizes_near_ties_match_floats() {
    for shift in [10u32, 20, 30, 40, 50] {
        for k in 1..400u64 {
            let base = ((k * 2 + 1) << shift) / 200;
            for d in 0..5u64 {
                let n = (base + d).saturating_sub(2);
                assert_eq!(humanize_bytes(n), with_floats(n), "{n}");
            }
        }
    }
    for shift in 53..64u32 {
        for d in 0..3000u64 {
            let n = (1u64 << shift) + d;
            assert_eq!(humanize_bytes(n), with_floats(n), "{n}");
            let m = ((1u64 << (shift - 1)) - 1) * 2 + 1 - d;
            assert_eq!(humanize_bytes(m), with_floats(m), "{m}");
        }
    }
}
