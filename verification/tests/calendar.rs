use chrono::NaiveDate;
use weight_backtest::calendar::{calendar_day, to_nanoseconds, StampUnit, NANOS_PER_DAY};

#[test]
fn the_epoch_is_day_zero() {
    assert_eq!(calendar_day(0), 0);
    assert_eq!(calendar_day(NANOS_PER_DAY - 1), 0);
    assert_eq!(calendar_day(NANOS_PER_DAY), 1);
}

#[test]
fn instants_before_the_epoch_fall_on_negative_days() {
    assert_eq!(calendar_day(-1), -1);
    assert_eq!(calendar_day(-NANOS_PER_DAY), -1);
    assert_eq!(calendar_day(-NANOS_PER_DAY - 1), -2);
}

#[test]
fn a_known_date() {
    // 2022-09-11 18:34:48 UTC
    let day = calendar_day(1_662_921_288_000_000_000);
    assert_eq!(day, 19_246);
    assert_eq!(NaiveDate::from_epoch_days(day), NaiveDate::from_ymd_opt(2022, 9, 11));
}

#[test]
fn the_ends_of_the_range() {
    assert_eq!(calendar_day(i64::MAX), 106_751);
    assert_eq!(calendar_day(i64::MIN), -106_752);
}

#[test]
fn the_day_is_the_floor_of_the_quotient() {
    let samples: [i64; 7] = [
        -5_000_000_000_000_000_000,
        -86_400_000_000_001,
        -3,
        7,
        86_399_999_999_999,
        1_700_000_000_123_456_789,
        9_000_000_000_000_000_000,
    ];
    for dt in samples {
        assert_eq!(calendar_day(dt) as i64, dt.div_euclid(NANOS_PER_DAY));
    }
}

#[test]
fn timestamps_scale_to_nanoseconds() {
    assert_eq!(to_nanoseconds(1_700_000_000_123, StampUnit::Milliseconds), Some(1_700_000_000_123_000_000));
    assert_eq!(to_nanoseconds(-5, StampUnit::Microseconds), Some(-5_000));
    assert_eq!(to_nanoseconds(i64::MIN, StampUnit::Nanoseconds), Some(i64::MIN));
    assert_eq!(to_nanoseconds(i64::MAX, StampUnit::Nanoseconds), Some(i64::MAX));
}

#[test]
fn timestamps_too_far_for_nanoseconds_are_refused() {
    assert_eq!(to_nanoseconds(i64::MAX / 1_000 + 1, StampUnit::Microseconds), None);
    assert_eq!(to_nanoseconds(i64::MAX / 1_000, StampUnit::Microseconds), Some(i64::MAX / 1_000 * 1_000));
    assert_eq!(to_nanoseconds(i64::MIN / 1_000_000 - 1, StampUnit::Milliseconds), None);
    assert_eq!(to_nanoseconds(9_223_372_036_855, StampUnit::Milliseconds), None);
    assert_eq!(to_nanoseconds(9_223_372_036_854, StampUnit::Milliseconds), Some(9_223_372_036_854_000_000));
}
