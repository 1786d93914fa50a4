//! Tests for entries: validation and blank-amount inference.

use silverfox::amount::Amount;
use silverfox::date::Date;
use silverfox::entry::Entry;
use silverfox::entry::EntryStatus;
use silverfox::entry::builder::EntryBuilder;
use silverfox::posting::ClassicPosting;
use silverfox::posting::Cost;
use silverfox::posting::Posting;

fn classic(account: &str, amount: Option<Amount>) -> Posting {
    Posting::Classic(ClassicPosting::new(account, amount, None, None))
}

fn usd(mag: i64) -> Amount {
    Amount { mag, symbol: Some(String::from("USD")) }
}

fn entry_with(postings: Vec<Posting>) -> Entry {
    Entry::new(
        Date::from_ymd(2024, 3, 1),
        EntryStatus::Cleared,
        String::from("test entry"),
        None,
        postings,
        None,
    )
}

#[test]
fn statuses_map_to_their_characters() {
    assert_eq!(EntryStatus::from_char('?').unwrap(), EntryStatus::Pending);
    assert_eq!(EntryStatus::from_char('~').unwrap(), EntryStatus::Cleared);
    assert_eq!(EntryStatus::from_char('*').unwrap(), EntryStatus::Reconciled);
    assert!(EntryStatus::from_char('x').is_err());
    assert_eq!(EntryStatus::Pending.to_char(), '?');
    assert_eq!(EntryStatus::Cleared.to_char(), '~');
    assert_eq!(EntryStatus::Reconciled.to_char(), '*');
    assert_eq!(EntryStatus::from_str("*").unwrap(), EntryStatus::Reconciled);
    assert!(EntryStatus::from_str("**").is_err());
}

#[test]
fn two_blank_postings_fail_validation() {
    let e = entry_with(vec![
        classic("assets:checking", None),
        classic("expenses:food", None),
        classic("income:job", Some(usd(10))),
    ]);
    assert!(e.validate("ctx").is_err());
}

#[test]
fn blank_among_two_named_currencies_fails_validation() {
    let e = entry_with(vec![
        classic("assets:checking", Some(usd(-50))),
        classic("assets:savings", Some(Amount { mag: 40, symbol: Some(String::from("CAD")) })),
        classic("expenses:food", None),
    ]);
    assert!(e.validate("ctx").is_err());
}

#[test]
fn single_currency_entries_validate() {
    let e = entry_with(vec![
        classic("assets:checking", Some(usd(-50))),
        classic("expenses:food", None),
    ]);
    assert!(e.validate("ctx").is_ok());
}

#[test]
fn blank_amount_balances_the_entry() {
    // Postings of -50 and a blank infer +50: the entry balances to zero.
    let e = entry_with(vec![
        classic("assets:checking", Some(usd(-50))),
        classic("expenses:food", None),
    ]);
    let blank = e.get_blank_amount().unwrap().unwrap();
    assert_eq!(blank.mag, 50);
    assert_eq!(blank.symbol, Some(String::from("USD")));
}

#[test]
fn no_blank_posting_means_no_blank_amount() {
    let e = entry_with(vec![classic("assets:checking", Some(usd(-50)))]);
    assert_eq!(e.get_blank_amount().unwrap(), None);
}

#[test]
fn mixed_currency_blank_uses_native_worths() {
    // 1 BTC @ 11000 native, -4000 native, and a blank: the blank is
    // the negated sum of the native worths, in the native currency.
    let btc = Amount { mag: 1, symbol: Some(String::from("BTC")) };
    let price = Amount { mag: 1100000000000, symbol: None };
    let with_cost = Posting::Classic(ClassicPosting::new(
        "assets:wallet",
        Some(btc),
        Some(Cost::UnitCost(price)),
        None,
    ));
    let e = entry_with(vec![
        with_cost,
        classic("assets:checking", Some(Amount { mag: -4000, symbol: None })),
        classic("expenses:things", None),
    ]);
    // 1 fixed-point step of BTC at 1100000000000 per unit is worth
    // 11000 native steps.
    let blank = e.get_blank_amount().unwrap().unwrap();
    assert_eq!(blank.mag, -(11000 - 4000));
    assert_eq!(blank.symbol, None);
}

#[test]
fn mixed_currency_blank_without_a_worth_fails() {
    let e = entry_with(vec![
        classic("assets:wallet", Some(Amount { mag: 1, symbol: Some(String::from("BTC")) })),
        classic("assets:checking", Some(Amount { mag: -4000, symbol: None })),
        classic("expenses:things", None),
    ]);
    assert!(e.get_blank_amount().is_err());
}

#[test]
fn entry_queries_see_postings() {
    let e = entry_with(vec![
        classic("assets:checking", Some(usd(-50))),
        classic("expenses:food", None),
    ]);
    assert!(e.has_blank_posting());
    assert!(!e.has_envelope_posting());
    assert!(!e.has_mixed_currencies());
    assert!(e.contains_account_posting("assets:checking"));
    assert!(!e.contains_account_posting("assets:savings"));
    assert_eq!(e.get_envelope_postings().len(), 0);
}

#[test]
fn builder_requires_the_header_fields() {
    assert!(EntryBuilder::new().build().is_err());
    let built = EntryBuilder::new()
        .date(Date::from_ymd(2024, 3, 1))
        .status(EntryStatus::Pending)
        .description(String::from("groceries run"))
        .payee(Some(String::from("the grocer")))
        .posting(classic("assets:checking", Some(usd(-50))))
        .posting(classic("expenses:food", Some(usd(50))))
        .build()
        .unwrap();
    assert_eq!(built.date, Date::from_ymd(2024, 3, 1));
    assert_eq!(built.status, EntryStatus::Pending);
    assert_eq!(built.description, "groceries run");
    assert_eq!(built.postings.len(), 2);
}
