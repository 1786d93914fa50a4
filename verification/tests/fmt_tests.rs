//! Tests for the plain-text renderings.

use silverfox::amount::Amount;
use silverfox::date::Date;
use silverfox::entry::Entry;
use silverfox::entry::EntryStatus;
use silverfox::fmt::amount_to_string;
use silverfox::fmt::date_to_string;
use silverfox::fmt::i64_to_string;
use silverfox::fmt::u64_to_string;
use silverfox::posting::AMOUNT_SCALE;
use silverfox::posting::ClassicPosting;
use silverfox::posting::Posting;

#[test]
fn numbers_render_in_decimal() {
    assert_eq!(u64_to_string(0), "0");
    assert_eq!(u64_to_string(907), "907");
    assert_eq!(i64_to_string(-42), "-42");
    assert_eq!(i64_to_string(i64::MIN), "-9223372036854775808");
}

#[test]
fn dates_render_with_dashes() {
    assert_eq!(date_to_string(&Date::from_ymd(2024, 3, 5)), "2024-03-05");
    assert_eq!(date_to_string(&Date::from_ymd(987, 12, 31)), "987-12-31");
}

#[test]
fn amounts_render_their_fraction_digits() {
    let native = Amount { mag: 3 * AMOUNT_SCALE + AMOUNT_SCALE / 2, symbol: None };
    assert_eq!(amount_to_string(&native), "3.5");
    let whole = Amount { mag: 42 * AMOUNT_SCALE, symbol: Some(String::from("USD")) };
    assert_eq!(amount_to_string(&whole), "42 USD");
    let negative = Amount { mag: -AMOUNT_SCALE / 4, symbol: None };
    assert_eq!(amount_to_string(&negative), "-0.25");
}

#[test]
fn entries_render_their_postings() {
    let entry = Entry::new(
        Date::from_ymd(2024, 3, 1),
        EntryStatus::Reconciled,
        String::from("groceries run"),
        Some(String::from("the grocer")),
        vec![Posting::Classic(ClassicPosting::new(
            "assets:checking",
            Some(Amount { mag: -50 * AMOUNT_SCALE, symbol: None }),
            None,
            None,
        ))],
        None,
    );
    let text = entry.as_full_string();
    assert!(text.starts_with("2024-03-01 * groceries run [the grocer]"));
    assert!(text.contains("assets:checking -50"));
}
