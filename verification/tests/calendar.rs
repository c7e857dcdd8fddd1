use embedded_utils::time::calendar::{days_in_month, days_in_year, is_leap_year};
use embedded_utils::time::duration::{
    Duration, HOUR, MICROSECOND, MILLISECOND, MINUTE, NANOSECOND, SECOND,
};

#[test]
fn years_divisible_by_four_are_leap() {
    assert!(is_leap_year(1972));
    assert!(is_leap_year(2024));
    assert!(!is_leap_year(1970));
    assert!(!is_leap_year(2023));
}

#[test]
fn centuries_are_leap_only_every_400_years() {
    assert!(!is_leap_year(1900));
    assert!(is_leap_year(2000));
    assert!(!is_leap_year(2100));
    assert!(!is_leap_year(2200));
    assert!(!is_leap_year(2300));
    assert!(is_leap_year(2400));
}

#[test]
fn leap_rule_at_the_ends_of_the_range() {
    assert!(is_leap_year(0));
    assert!(!is_leap_year(1));
    assert!(!is_leap_year(u32::MAX));
    assert!(is_leap_year(4_294_967_292));
}

#[test]
fn years_have_365_or_366_days() {
    assert_eq!(days_in_year(1970), 365);
    assert_eq!(days_in_year(1972), 366);
    assert_eq!(days_in_year(2000), 366);
    assert_eq!(days_in_year(2100), 365);
}

#[test]
fn month_lengths_of_a_common_year() {
    let lengths: [u64; 12] = [31, 28, 31, 30, 31, 30, 31, 31, 30, 31, 30, 31];
    let mut total: u64 = 0;
    for (index, &length) in lengths.iter().enumerate() {
        assert_eq!(days_in_month(2023, index as u8 + 1), length);
        total += length;
    }
    assert_eq!(total, days_in_year(2023));
}

#[test]
fn month_lengths_of_a_leap_year() {
    let lengths: [u64; 12] = [31, 29, 31, 30, 31, 30, 31, 31, 30, 31, 30, 31];
    let mut total: u64 = 0;
    for (index, &length) in lengths.iter().enumerate() {
        assert_eq!(days_in_month(2024, index as u8 + 1), length);
        total += length;
    }
    assert_eq!(total, days_in_year(2024));
}

#[test]
fn four_hundred_years_hold_146097_days() {
    let mut total: u64 = 0;
    let mut year: u32 = 1970;
    while year < 2370 {
        total += days_in_year(year);
        year += 1;
    }
    assert_eq!(total, 146_097);
}

#[test]
fn durations_count_nanoseconds() {
    let one: Duration = NANOSECOND;
    assert_eq!(one, 1);
    assert_eq!(MICROSECOND, 1_000);
    assert_eq!(MILLISECOND, 1_000_000);
    assert_eq!(SECOND, 1_000_000_000);
    assert_eq!(MINUTE, 60_000_000_000);
    assert_eq!(HOUR, 3_600_000_000_000);
}
