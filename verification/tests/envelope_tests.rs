//! Tests for envelopes: funding amounts and entry processing.

use silverfox::amount::Amount;
use silverfox::amount::AmountPool;
use silverfox::date::Date;
use silverfox::entry::Entry;
use silverfox::entry::EntryStatus;
use silverfox::envelope::Envelope;
use silverfox::envelope::EnvelopeType;
use silverfox::envelope::FundingMethod;
use silverfox::envelope::builder::EnvelopeBuilder;
use silverfox::frequency::Frequency;
use silverfox::posting::ClassicPosting;
use silverfox::posting::EnvelopePosting;
use silverfox::posting::Posting;

fn usd(mag: i64) -> Amount {
    Amount { mag, symbol: Some(String::from("USD")) }
}

fn native(mag: i64) -> Amount {
    Amount { mag, symbol: None }
}

fn pool_with(a: Amount) -> AmountPool {
    let mut p = AmountPool::new();
    p.add(&a).unwrap();
    p
}

fn entry_with(date: Date, postings: Vec<Posting>) -> Entry {
    Entry::new(date, EntryStatus::Cleared, String::from("test entry"), None, postings, None)
}

#[test]
fn conservative_fill_spreads_over_the_days_left() {
    // Target 300, nothing saved, due in ten days, 1000 available: the
    // fill for today is a tenth of the shortfall.
    let today = Date::from_ymd(2024, 3, 1);
    let due = Date::from_ymd(2024, 3, 11);
    let envelope = EnvelopeBuilder::new("groceries", EnvelopeType::Expense, "assets:checking")
        .freq(Frequency::Once(due))
        .amount(native(300))
        .funding(FundingMethod::Conservative)
        .build()
        .unwrap();
    let posting = envelope.get_filling_posting(&pool_with(native(1000)), &today).unwrap();
    assert_eq!(posting.get_amount().mag, 30);
    assert_eq!(posting.get_account_name(), "assets:checking");
    assert_eq!(posting.get_envelope_name(), "groceries");
}

#[test]
fn aggressive_fill_is_capped_by_the_available_balance() {
    // Target 300 but only 50 available: the fill takes the 50, not the
    // target.
    let today = Date::from_ymd(2024, 3, 1);
    let due = Date::from_ymd(2024, 3, 11);
    let envelope = EnvelopeBuilder::new("groceries", EnvelopeType::Expense, "assets:checking")
        .freq(Frequency::Once(due))
        .amount(native(300))
        .funding(FundingMethod::Aggressive)
        .build()
        .unwrap();
    let posting = envelope.get_filling_posting(&pool_with(native(50)), &today).unwrap();
    assert_eq!(posting.get_amount().mag, 50);
}

#[test]
fn manual_envelopes_never_fill_automatically() {
    let today = Date::from_ymd(2024, 3, 1);
    let due = Date::from_ymd(2024, 3, 11);
    let envelope = EnvelopeBuilder::new("groceries", EnvelopeType::Expense, "assets:checking")
        .freq(Frequency::Once(due))
        .amount(native(300))
        .funding(FundingMethod::Manual)
        .build()
        .unwrap();
    let posting = envelope.get_filling_posting(&pool_with(native(1000)), &today).unwrap();
    assert_eq!(posting.get_amount().mag, 0);
}

#[test]
fn no_due_date_means_no_fill() {
    let today = Date::from_ymd(2024, 3, 1);
    let envelope = EnvelopeBuilder::new("rainy", EnvelopeType::Goal, "assets:checking")
        .amount(native(300))
        .funding(FundingMethod::Aggressive)
        .build()
        .unwrap();
    let posting = envelope.get_filling_posting(&pool_with(native(1000)), &today).unwrap();
    assert_eq!(posting.get_amount().mag, 0);
}

fn groceries_envelope() -> Envelope {
    EnvelopeBuilder::new("groceries", EnvelopeType::Expense, "assets:checking")
        .freq(Frequency::Monthly(5))
        .amount(usd(300))
        .funding(FundingMethod::Conservative)
        .auto_account("expenses:groceries")
        .build()
        .unwrap()
}

#[test]
fn explicit_envelope_postings_move_the_balances() {
    let mut envelope = groceries_envelope();
    let date = Date::from_ymd(2024, 3, 1);
    // Fund 120, then spend 40: funding lands on the next period (the
    // date is not before the last due date), spending always leaves
    // the current period.
    let fund = entry_with(
        date,
        vec![Posting::Envelope(EnvelopePosting::new(
            String::from("assets:checking"),
            usd(120),
            String::from("groceries"),
        ))],
    );
    envelope.process_entry(&fund, &date).unwrap();
    assert_eq!(envelope.get_next_amount().mag, 120);
    assert_eq!(envelope.get_now_amount().mag, 0);

    let spend = entry_with(
        date,
        vec![Posting::Envelope(EnvelopePosting::new(
            String::from("assets:checking"),
            usd(-40),
            String::from("groceries"),
        ))],
    );
    envelope.process_entry(&spend, &date).unwrap();
    assert_eq!(envelope.get_next_amount().mag, 120);
    assert_eq!(envelope.get_now_amount().mag, -40);
}

#[test]
fn inference_moves_the_smaller_side() {
    let mut envelope = groceries_envelope();
    let date = Date::from_ymd(2024, 3, 1);
    let spend = entry_with(
        date,
        vec![
            Posting::Classic(ClassicPosting::new("assets:checking", Some(usd(-50)), None, None)),
            Posting::Classic(ClassicPosting::new("expenses:groceries", Some(usd(50)), None, None)),
        ],
    );
    envelope.process_entry(&spend, &date).unwrap();
    assert_eq!(envelope.get_now_amount().mag, -50);
    assert_eq!(envelope.get_next_amount().mag, 0);
}

#[test]
fn inference_needs_both_sides() {
    let mut envelope = groceries_envelope();
    let date = Date::from_ymd(2024, 3, 1);
    // No companion-account posting: nothing moves, and that is fine.
    let unrelated = entry_with(
        date,
        vec![
            Posting::Classic(ClassicPosting::new("assets:checking", Some(usd(-50)), None, None)),
            Posting::Classic(ClassicPosting::new("expenses:rent", Some(usd(50)), None, None)),
        ],
    );
    envelope.process_entry(&unrelated, &date).unwrap();
    assert_eq!(envelope.get_now_amount().mag, 0);
    assert_eq!(envelope.get_next_amount().mag, 0);
}

#[test]
fn inference_refuses_unconvertible_currencies() {
    // The envelope counts USD; postings in another named currency
    // cannot be converted to it.
    let mut envelope = groceries_envelope();
    let date = Date::from_ymd(2024, 3, 1);
    let cad = Amount { mag: 50, symbol: Some(String::from("CAD")) };
    let cad_neg = Amount { mag: -50, symbol: Some(String::from("CAD")) };
    let entry = entry_with(
        date,
        vec![
            Posting::Classic(ClassicPosting::new("assets:checking", Some(cad_neg), None, None)),
            Posting::Classic(ClassicPosting::new("expenses:groceries", Some(cad), None, None)),
        ],
    );
    assert!(envelope.process_entry(&entry, &date).is_err());
}

#[test]
fn envelope_words_parse() {
    assert_eq!(EnvelopeType::from_str("expense").unwrap(), EnvelopeType::Expense);
    assert_eq!(EnvelopeType::from_str("goal").unwrap(), EnvelopeType::Goal);
    assert!(EnvelopeType::from_str("stash").is_err());
    assert_eq!(FundingMethod::from_str(" manual ").unwrap(), FundingMethod::Manual);
    assert_eq!(FundingMethod::from_str("aggressive").unwrap(), FundingMethod::Aggressive);
    assert_eq!(FundingMethod::from_str("conservative").unwrap(), FundingMethod::Conservative);
    assert!(FundingMethod::from_str("wildly").is_err());
}
