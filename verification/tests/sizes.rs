//! Sizes and percentages, held against floating-point arithmetic.

use apr::rounding::{fmt_size, percent};
use apr::style::{size_color, Color};

fn float_size(b: i64) -> String {
    if b < 0 {
        return "–".to_string();
    }
    let f = b as f64;
    if f < 1024.0 * 1024.0 {
        format!("{:.0} KiB", f / 1024.0)
    } else if f < 1024.0_f64.powi(3) {
        format!("{:.1} MiB", f / 1024.0_f64.powi(2))
    } else {
        format!("{:.2} GiB", f / 1024.0_f64.powi(3))
    }
}

fn float_percent(i: usize, n: usize) -> u8 {
    ((i as f32 / n as f32) * 90.0) as u8
}

fn noise(seed: u64) -> u64 {
    let mut x = seed.wrapping_add(0x9e37_79b9_7f4a_7c15);
    x = (x ^ (x >> 30)).wrapping_mul(0xbf58_476d_1ce4_e5b9);
    x = (x ^ (x >> 27)).wrapping_mul(0x94d0_49bb_1331_11eb);
    x ^ (x >> 31)
}

#[test]
fn negative_size_is_a_dash() {
    assert_eq!(fmt_size(-1), "–");
    assert_eq!(fmt_size(i64::MIN), "–");
}

#[test]
fn sizes_in_each_unit() {
    assert_eq!(fmt_size(0), "0 KiB");
    assert_eq!(fmt_size(512), "0 KiB");
    assert_eq!(fmt_size(513), "1 KiB");
    assert_eq!(fmt_size(1536), "2 KiB");
    assert_eq!(fmt_size(2560), "2 KiB");
    assert_eq!(fmt_size(1_048_575), "1024 KiB");
    assert_eq!(fmt_size(1_048_576), "1.0 MiB");
    assert_eq!(fmt_size(1_073_741_823), "1024.0 MiB");
    assert_eq!(fmt_size(1_073_741_824), "1.00 GiB");
    assert_eq!(fmt_size(i64::MAX), "8589934592.00 GiB");
}

#[test]
fn small_sizes_agree_with_floats() {
    for b in 0..200_000 {
        assert_eq!(fmt_size(b), float_size(b));
    }
}

#[test]
fn sizes_near_the_limits_agree_with_floats() {
    for limit in [1i64 << 20, 1 << 30, 1 << 40, 1 << 53, 1 << 54, 1 << 62, i64::MAX - 2000] {
        for d in -2000..2000 {
            let b = limit + d;
            assert_eq!(fmt_size(b), float_size(b), "{}", b);
        }
    }
}

#[test]
fn scattered_sizes_agree_with_floats() {
    for i in 0..60_000u64 {
        let b = (noise(i) >> (1 + i % 63)) as i64;
        assert_eq!(fmt_size(b), float_size(b), "{}", b);
    }
}

#[test]
fn ties_agree_with_floats() {
    for k in 0..4000i64 {
        let kib = k * 1024 + 512;
        assert_eq!(fmt_size(kib), float_size(kib));
        let mib = (1 << 20) + k * 52_428;
        assert_eq!(fmt_size(mib), float_size(mib));
        let quarter = (1 << 20) * (k + 1) + (1 << 18);
        assert_eq!(fmt_size(quarter), float_size(quarter));
        let eighth = (1 << 30) * (k + 1) + (1 << 27);
        assert_eq!(fmt_size(eighth), float_size(eighth));
    }
}

#[test]
fn percentages_agree_with_floats() {
    for n in 1..400 {
        for i in 0..n {
            assert_eq!(percent(i, n), float_percent(i, n), "{} of {}", i, n);
        }
    }
}

#[test]
fn large_percentages_agree_with_floats() {
    for k in 0..60_000u64 {
        let n = ((noise(k) >> (k % 63)) as usize).max(1);
        let i = (noise(k + 1_000_000) as usize) % n;
        assert_eq!(percent(i, n), float_percent(i, n), "{} of {}", i, n);
    }
    for n in [(1usize << 24) - 1, 1 << 24, (1 << 24) + 1, (1 << 25) + 3, usize::MAX] {
        for i in [0, 1, 2, n / 3, n / 2, n - 2, n - 1] {
            assert_eq!(percent(i, n), float_percent(i, n), "{} of {}", i, n);
        }
    }
}

#[test]
fn percentages_stay_below_ninety_and_rise() {
    assert_eq!(percent(0, 4), 0);
    assert_eq!(percent(1, 4), 22);
    assert_eq!(percent(3, 4), 67);
    assert_eq!(percent(usize::MAX - 1, usize::MAX), 90);
    for i in 0..999 {
        assert!(percent(i, 1000) <= percent(i + 1, 1000));
    }
}

#[test]
fn larger_sizes_look_more_alarming() {
    assert_eq!(size_color(-5), Color::Green);
    assert_eq!(size_color(29_999_999), Color::Green);
    assert_eq!(size_color(30_000_000), Color::Yellow);
    assert_eq!(size_color(499_999_999), Color::Yellow);
    assert_eq!(size_color(500_000_000), Color::LightRed);
}
