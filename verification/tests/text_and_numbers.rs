//! Decimal text: identifiers, fixed-point seconds, clock readings, search
//! and formatting.

use voice::task::{parse_task_id, render_task_id};
use voice::text::{
    find_sub, format_secs, parse_clock_micros, parse_fixed_micros, parse_u64, render_u64,
};

#[test]
fn render_then_parse_small() {
    let s = render_u64(0);
    assert_eq!(s, "0");
    assert_eq!(parse_u64(&s), Some(0));
}

#[test]
fn render_then_parse_large() {
    let s = render_u64(u64::MAX);
    assert_eq!(s, "18446744073709551615");
    assert_eq!(parse_u64(&s), Some(u64::MAX));
}

#[test]
fn task_id_round_trip_values() {
    for id in [0u64, 1, 42, 999_999_999_999, u64::MAX] {
        let s = render_task_id(id);
        assert_eq!(parse_task_id(&s), Some(id));
    }
}

#[test]
fn parse_u64_rejects() {
    assert_eq!(parse_u64(""), None);
    assert_eq!(parse_u64("+42"), None);
    assert_eq!(parse_u64("12a"), None);
    assert_eq!(parse_u64("-1"), None);
    // One past the largest 64-bit value.
    assert_eq!(parse_u64("18446744073709551616"), None);
    assert_eq!(parse_u64("00042"), Some(42));
}

#[test]
fn fixed_micros_values() {
    assert_eq!(parse_fixed_micros("3"), Some(3_000_000));
    assert_eq!(parse_fixed_micros("3.5"), Some(3_500_000));
    assert_eq!(parse_fixed_micros("3."), Some(3_000_000));
    assert_eq!(parse_fixed_micros("0.000001"), Some(1));
    // A seventh fractional place is dropped.
    assert_eq!(parse_fixed_micros("0.0000019"), Some(1));
    assert_eq!(parse_fixed_micros("10.25"), Some(10_250_000));
}

#[test]
fn fixed_micros_rejects() {
    assert_eq!(parse_fixed_micros(""), None);
    assert_eq!(parse_fixed_micros(".5"), None);
    assert_eq!(parse_fixed_micros("1.2.3"), None);
    assert_eq!(parse_fixed_micros("1,2"), None);
    assert_eq!(parse_fixed_micros("-1"), None);
    assert_eq!(parse_fixed_micros("abc"), None);
}

#[test]
fn clock_micros_values() {
    assert_eq!(
        parse_clock_micros("00:00:12.00"),
        Some(12_000_000)
    );
    assert_eq!(
        parse_clock_micros("1:02:03.5"),
        Some(3600_000_000 + 2 * 60_000_000 + 3_500_000)
    );
    assert_eq!(parse_clock_micros("0:0:0"), Some(0));
}

#[test]
fn clock_micros_rejects() {
    assert_eq!(parse_clock_micros("12.5"), None);
    assert_eq!(parse_clock_micros("1:2"), None);
    assert_eq!(parse_clock_micros(":1:2"), None);
    assert_eq!(parse_clock_micros("1::2"), None);
    assert_eq!(parse_clock_micros("a:b:c"), None);
}

#[test]
fn find_sub_first_occurrence() {
    assert_eq!(find_sub("abcabc", "bc"), Some(1));
    assert_eq!(find_sub("abcabc", "zz"), None);
    assert_eq!(find_sub("abc", ""), Some(0));
    assert_eq!(find_sub("Duration: 00:01:00, x", "Duration: "), Some(0));
}

#[test]
fn format_secs_values() {
    assert_eq!(format_secs(3_000_000), "3");
    assert_eq!(format_secs(3_500_000), "3.5");
    assert_eq!(format_secs(10_500_000), "10.5");
    assert_eq!(format_secs(1), "0.000001");
    assert_eq!(format_secs(2_010_000), "2.01");
    assert_eq!(format_secs(0), "0");
}
