use collect::timefmt::{decimal_string, format_time_human_readable};

fn picos(seconds: f64) -> u64 {
    (seconds * 1e12).round() as u64
}

#[test]
fn one_second_is_shown_in_seconds() {
    assert_eq!(format_time_human_readable(picos(1.0)), "1s");
    assert_eq!(format_time_human_readable(1_000_000_000_000), "1s");
}

#[test]
fn milliseconds_lose_their_trailing_zeros() {
    assert_eq!(format_time_human_readable(picos(0.0015)), "1.5ms");
    assert_eq!(format_time_human_readable(1_500_000_000), "1.5ms");
}

#[test]
fn microseconds_carry_the_greek_letter() {
    assert_eq!(format_time_human_readable(picos(0.0000025)), "2.5μs");
    assert_eq!(format_time_human_readable(2_500_000), "2.5μs");
}

#[test]
fn nanoseconds_are_the_smallest_unit() {
    assert_eq!(format_time_human_readable(picos(0.0000000999)), "99.9ns");
    assert_eq!(format_time_human_readable(99_900), "99.9ns");
    assert_eq!(format_time_human_readable(1), "0.001ns");
    assert_eq!(format_time_human_readable(0), "0ns");
}

#[test]
fn whole_values_have_no_decimal_point() {
    assert_eq!(format_time_human_readable(2_000_000_000_000), "2s");
    assert_eq!(format_time_human_readable(10_000_000_000_000), "10s");
    assert_eq!(format_time_human_readable(500_000_000_000), "500ms");
    assert_eq!(format_time_human_readable(100_000_000), "100μs");
}

#[test]
fn three_decimals_are_kept_when_needed() {
    assert_eq!(format_time_human_readable(1_234_000_000_000), "1.234s");
    assert_eq!(format_time_human_readable(1_230_000_000_000), "1.23s");
    assert_eq!(format_time_human_readable(1_204_000_000), "1.204ms");
    assert_eq!(format_time_human_readable(1_050_000), "1.05μs");
    assert_eq!(format_time_human_readable(12_345_678_000_000), "12.346s");
}

#[test]
fn unit_thresholds_are_inclusive() {
    assert_eq!(format_time_human_readable(999_999), "999.999ns");
    assert_eq!(format_time_human_readable(1_000_000), "1μs");
    assert_eq!(format_time_human_readable(1_000_000_000), "1ms");
    assert_eq!(format_time_human_readable(999_000_000_000), "999ms");
}

#[test]
fn rounding_goes_to_the_nearest_thousandth() {
    assert_eq!(format_time_human_readable(1_000_400_000_000), "1s");
    assert_eq!(format_time_human_readable(1_000_600_000_000), "1.001s");
    assert_eq!(format_time_human_readable(1_000_499), "1μs");
    assert_eq!(format_time_human_readable(1_000_501), "1.001μs");
}

#[test]
fn a_tie_goes_to_the_even_thousandth() {
    assert_eq!(format_time_human_readable(1_000_500_000_000), "1s");
    assert_eq!(format_time_human_readable(1_001_500_000_000), "1.002s");
    assert_eq!(format_time_human_readable(1_002_500), "1.002μs");
}

#[test]
fn rounding_up_does_not_change_the_unit() {
    assert_eq!(format_time_human_readable(999_999_999_999), "1000ms");
    assert_eq!(format_time_human_readable(999_999_600), "1000μs");
}

#[test]
fn the_longest_time_is_formatted() {
    assert_eq!(format_time_human_readable(u64::MAX), "18446744.074s");
}

#[test]
fn formatting_twice_gives_the_same_text() {
    for t in [0u64, 1, 999, 1_500_000_000, 99_900, u64::MAX] {
        assert_eq!(format_time_human_readable(t), format_time_human_readable(t));
    }
}

#[test]
fn decimal_strings_have_no_leading_zeros() {
    assert_eq!(decimal_string(0), "0");
    assert_eq!(decimal_string(7), "7");
    assert_eq!(decimal_string(10), "10");
    assert_eq!(decimal_string(1234567890), "1234567890");
    assert_eq!(decimal_string(u64::MAX), "18446744073709551615");
}
