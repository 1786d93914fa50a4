//! Tests for the due-date policies.

use silverfox::date::Date;
use silverfox::frequency::Frequency;

#[test]
fn subtract_months_test() {
    let date_0 = Date::from_ymd(2019, 8, 2);
    let subtracted_0 = Frequency::subtract_months(date_0, 3).unwrap();
    assert_eq!(Date::from_ymd(2019, 5, 2), subtracted_0);

    let date_1 = Date::from_ymd(2020, 1, 1);
    let subtracted_1 = Frequency::subtract_months(date_1, 3).unwrap();
    assert_eq!(Date::from_ymd(2019, 10, 1), subtracted_1);
}

#[test]
fn subtract_months_clamps_short_months() {
    let d = Date::from_ymd(2024, 3, 31);
    assert_eq!(Frequency::subtract_months(d, 1).unwrap(), Date::from_ymd(2024, 2, 29));
    let e = Date::from_ymd(2023, 5, 31);
    assert_eq!(Frequency::subtract_months(e, 1).unwrap(), Date::from_ymd(2023, 4, 30));
}

#[test]
fn monthly_next_due_dates() {
    // Monthly on the 5th: past the 5th the due date rolls to next month.
    let f = Frequency::Monthly(5);
    let today = Date::from_ymd(2024, 3, 10);
    assert_eq!(f.get_next_due_date(&today), Some(Date::from_ymd(2024, 4, 5)));
    let earlier = Date::from_ymd(2024, 3, 1);
    assert_eq!(f.get_next_due_date(&earlier), Some(Date::from_ymd(2024, 3, 5)));
}

#[test]
fn monthly_clamps_and_rolls_years() {
    let f = Frequency::Monthly(31);
    let today = Date::from_ymd(2024, 4, 1);
    // April has no 31st: the due date clamps to the 30th.
    assert_eq!(f.get_next_due_date(&today), Some(Date::from_ymd(2024, 4, 30)));
    let late = Date::from_ymd(2024, 12, 31);
    assert_eq!(f.get_next_due_date(&late), Some(Date::from_ymd(2025, 1, 31)));
}

#[test]
fn annually_next_due_dates() {
    let f = Frequency::Annually(Date::from_ymd(2020, 2, 20));
    let today = Date::from_ymd(2024, 1, 1);
    assert_eq!(f.get_next_due_date(&today), Some(Date::from_ymd(2024, 2, 20)));
    let later = Date::from_ymd(2024, 3, 1);
    assert_eq!(f.get_next_due_date(&later), Some(Date::from_ymd(2025, 2, 20)));
}

#[test]
fn once_and_never() {
    let d = Date::from_ymd(2024, 6, 1);
    let f = Frequency::Once(d);
    assert_eq!(f.get_next_due_date(&Date::from_ymd(2024, 5, 31)), Some(d));
    assert_eq!(f.get_next_due_date(&Date::from_ymd(2024, 6, 1)), None);
    assert_eq!(f.get_last_due_date(&Date::from_ymd(2024, 6, 1)), Some(d));
    assert_eq!(f.get_last_due_date(&Date::from_ymd(2024, 5, 31)), None);
    assert_eq!(Frequency::Never.get_next_due_date(&d), None);
    assert_eq!(Frequency::Never.get_last_due_date(&d), None);
}

#[test]
fn weekly_finds_the_next_weekday() {
    // 2024-03-10 is a Sunday; the next Monday (weekday 0) is the 11th,
    // and the next Sunday (weekday 6) a whole week later.
    let today = Date::from_ymd(2024, 3, 10);
    assert_eq!(
        Frequency::Weekly(0).get_next_due_date(&today),
        Some(Date::from_ymd(2024, 3, 11))
    );
    assert_eq!(
        Frequency::Weekly(6).get_next_due_date(&today),
        Some(Date::from_ymd(2024, 3, 17))
    );
    assert_eq!(
        Frequency::Weekly(0).get_last_due_date(&today),
        Some(Date::from_ymd(2024, 3, 4))
    );
}

#[test]
fn biweekly_advances_in_two_week_periods() {
    let anchor = Date::from_ymd(2024, 3, 4);
    let f = Frequency::Biweekly(anchor);
    // Three days past the anchor, the next period starts two weeks
    // after the anchor.
    assert_eq!(
        f.get_next_due_date(&Date::from_ymd(2024, 3, 7)),
        Some(Date::from_ymd(2024, 3, 18))
    );
    // On the anchor's day the next period is still two weeks out.
    assert_eq!(
        f.get_next_due_date(&Date::from_ymd(2024, 3, 4)),
        Some(Date::from_ymd(2024, 3, 18))
    );
    assert_eq!(
        f.get_last_due_date(&Date::from_ymd(2024, 3, 7)),
        Some(Date::from_ymd(2024, 3, 4))
    );
}

#[test]
fn bimonthly_projects_the_anchor_day() {
    let anchor = Date::from_ymd(2024, 1, 31);
    let f = Frequency::Bimonthly(anchor);
    // The first step lands in March; a day count past March lands in
    // May, and short months clamp the 31st.
    assert_eq!(
        f.get_next_due_date(&Date::from_ymd(2024, 2, 15)),
        Some(Date::from_ymd(2024, 3, 31))
    );
    assert_eq!(
        f.get_next_due_date(&Date::from_ymd(2024, 4, 2)),
        Some(Date::from_ymd(2024, 5, 31))
    );
    // A future anchor is itself the next due date.
    assert_eq!(
        f.get_next_due_date(&Date::from_ymd(2024, 1, 1)),
        Some(anchor)
    );
    // The progression can land on today itself.
    assert_eq!(
        f.get_next_due_date(&Date::from_ymd(2024, 3, 31)),
        Some(Date::from_ymd(2024, 3, 31))
    );
}
