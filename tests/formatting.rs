use floating_duration::format::round_div;
use floating_duration::{Interval, TimeFormat};

fn show(secs: u64, nanos: u32) -> (String, String) {
    let t = TimeFormat(Interval::new(secs, nanos));
    (t.fmt(false), t.fmt(true))
}

#[test]
fn microseconds_with_two_decimals() {
    let (short, full) = show(0, 461_930);
    assert_eq!(short, "461.93µs");
    assert_eq!(full, "461.93 microseconds");
}

#[test]
fn exactly_one_millisecond_is_shown_in_microseconds() {
    let (short, full) = show(0, 1_000_000);
    assert_eq!(short, "1000µs");
    assert_eq!(full, "1000 microseconds");
}

#[test]
fn exactly_one_microsecond_is_shown_in_nanoseconds() {
    let (short, full) = show(0, 1_000);
    assert_eq!(short, "1000ns");
    assert_eq!(full, "1000 nanoseconds");
}

#[test]
fn seconds_are_rounded_to_three_decimals() {
    let (short, full) = show(4, 123_456_789);
    assert_eq!(short, "4.123s");
    assert_eq!(full, "4.123 seconds");
}

#[test]
fn nanoseconds_are_shown_as_they_are() {
    let (short, full) = show(0, 500);
    assert_eq!(short, "500ns");
    assert_eq!(full, "500 nanoseconds");
}

#[test]
fn zero_interval() {
    let (short, full) = show(0, 0);
    assert_eq!(short, "0ns");
    assert_eq!(full, "0 nanoseconds");
}

#[test]
fn integral_seconds_drop_the_fraction() {
    assert_eq!(show(2, 0).0, "2s");
    assert_eq!(show(2, 0).1, "2 seconds");
    assert_eq!(show(1, 999_999_999).0, "2s");
    assert_eq!(show(1, 999_500_000).0, "2s");
    assert_eq!(show(1, 999_499_999).0, "1.999s");
}

#[test]
fn trailing_zeros_are_dropped() {
    assert_eq!(show(3, 100_000_000).0, "3.1s");
    assert_eq!(show(3, 120_000_000).0, "3.12s");
    assert_eq!(show(3, 5_000_000).0, "3.005s");
    assert_eq!(show(0, 2_050).0, "2.05µs");
}

#[test]
fn milliseconds_are_rounded_half_up() {
    let (short, full) = show(0, 1_234_567);
    assert_eq!(short, "1.235ms");
    assert_eq!(full, "1.235 milliseconds");
    assert_eq!(show(0, 1_000_500).0, "1.001ms");
    assert_eq!(show(0, 1_000_499).0, "1ms");
    assert_eq!(show(0, 1_000_001).0, "1ms");
    assert_eq!(show(0, 999_999_999).0, "1000ms");
}

#[test]
fn just_above_one_microsecond() {
    assert_eq!(show(0, 1_001).0, "1.001µs");
    assert_eq!(show(0, 999_999).0, "999.999µs");
}

#[test]
fn largest_interval_is_exact() {
    let t = TimeFormat(Interval { secs: u64::MAX, nanos: 999_999_999 });
    assert_eq!(t.fmt(false), "18446744073709551616s");
    let t = TimeFormat(Interval { secs: u64::MAX, nanos: 0 });
    assert_eq!(t.fmt(true), "18446744073709551615 seconds");
}

#[test]
fn new_carries_whole_seconds() {
    let i = Interval::new(1, 2_500_000_000);
    assert_eq!(i, Interval { secs: 3, nanos: 500_000_000 });
    let j = Interval::new(7, 999_999_999);
    assert_eq!(j, Interval { secs: 7, nanos: 999_999_999 });
}

#[test]
fn round_div_rounds_halves_up() {
    assert_eq!(round_div(1_499, 1_000), 1);
    assert_eq!(round_div(1_500, 1_000), 2);
    assert_eq!(round_div(2_000_000, 1_000_000), 2);
    assert_eq!(round_div(7, 1), 7);
    assert_eq!(round_div(0, 3), 0);
    assert_eq!(round_div(u128::MAX, 2), u128::MAX / 2 + 1);
}

#[test]
fn rounding_twice_changes_nothing() {
    for n in [0u128, 1, 499, 500, 4_123_456_789, 999_999_999] {
        let once = round_div(n, 1_000_000);
        assert_eq!(round_div(once * 1_000_000, 1_000_000), once);
    }
}

#[test]
fn rounded_seconds_never_decrease() {
    let a = TimeFormat(Interval::new(4, 123_456_789)).fmt(false);
    let b = TimeFormat(Interval::new(4, 123_500_000)).fmt(false);
    let c = TimeFormat(Interval::new(5, 123_456_789)).fmt(false);
    assert_eq!(a, "4.123s");
    assert_eq!(b, "4.124s");
    assert_eq!(c, "5.123s");
}
