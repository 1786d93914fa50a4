//! Tests for the calendar.

use silverfox::date::Date;
use silverfox::date::date_of_day_number;
use silverfox::date::days_in_month;
use silverfox::date::is_leap_year;

#[test]
fn leap_years() {
    assert!(is_leap_year(2020));
    assert!(is_leap_year(2000));
    assert!(!is_leap_year(1900));
    assert!(!is_leap_year(2023));
    assert_eq!(days_in_month(2020, 2), 29);
    assert_eq!(days_in_month(2023, 2), 28);
    assert_eq!(days_in_month(2023, 4), 30);
    assert_eq!(days_in_month(2023, 12), 31);
}

#[test]
fn day_numbers_round_trip() {
    let dates = [
        Date::from_ymd(1, 1, 1),
        Date::from_ymd(2020, 2, 29),
        Date::from_ymd(2024, 3, 10),
        Date::from_ymd(9999, 12, 31),
    ];
    for d in dates.iter() {
        let n = d.day_number();
        let back = date_of_day_number(n);
        assert_eq!(*d, back);
    }
    assert_eq!(Date::from_ymd(1, 1, 1).day_number(), 0);
    assert_eq!(Date::from_ymd(1, 1, 2).day_number(), 1);
}

#[test]
fn weekdays_follow_the_calendar() {
    // The first supported day is a Monday; 2024-03-10 was a Sunday and
    // 2024-01-01 a Monday.
    assert_eq!(Date::from_ymd(1, 1, 1).weekday(), 0);
    assert_eq!(Date::from_ymd(2024, 1, 1).weekday(), 0);
    assert_eq!(Date::from_ymd(2024, 3, 10).weekday(), 6);
}

#[test]
fn date_comparisons_and_arithmetic() {
    let a = Date::from_ymd(2024, 2, 28);
    let b = Date::from_ymd(2024, 3, 1);
    assert!(a.is_before(&b));
    assert!(b.is_after(&a));
    // 2024 is a leap year: two days lie between the two dates.
    assert_eq!(a.add_days(2).unwrap(), b);
    assert_eq!(b.sub_days(2).unwrap(), a);
    assert_eq!(Date::from_ymd(1, 1, 1).sub_days(1), None);
    assert_eq!(Date::from_ymd(9999, 12, 31).add_days(1), None);
}

#[test]
fn from_ymd_opt_checks_validity() {
    assert!(Date::from_ymd_opt(2023, 2, 29).is_none());
    assert!(Date::from_ymd_opt(2023, 13, 1).is_none());
    assert!(Date::from_ymd_opt(2023, 0, 1).is_none());
    assert!(Date::from_ymd_opt(0, 1, 1).is_none());
    assert!(Date::from_ymd_opt(10000, 1, 1).is_none());
    assert_eq!(Date::from_ymd_opt(2024, 2, 29), Some(Date::from_ymd(2024, 2, 29)));
}
