//! End-to-end tests for the ledger.

use silverfox::account::builder::AccountBuilder;
use silverfox::amount::Amount;
use silverfox::date::Date;
use silverfox::entry::Entry;
use silverfox::entry::EntryStatus;
use silverfox::envelope::EnvelopeType;
use silverfox::envelope::FundingMethod;
use silverfox::envelope::builder::EnvelopeBuilder;
use silverfox::frequency::Frequency;
use silverfox::ledger::Ledger;
use silverfox::posting::ClassicPosting;
use silverfox::posting::Posting;

fn usd(mag: i64) -> Amount {
    Amount { mag, symbol: Some(String::from("USD")) }
}

fn entry_with(date: Date, postings: Vec<Posting>) -> Entry {
    Entry::new(date, EntryStatus::Cleared, String::from("test entry"), None, postings, None)
}

fn checking_with_groceries() -> Ledger {
    let account = AccountBuilder::new("assets:checking")
        .envelope(
            EnvelopeBuilder::new("groceries", EnvelopeType::Expense, "assets:checking")
                .freq(Frequency::Monthly(5))
                .amount(usd(300))
                .funding(FundingMethod::Conservative)
                .auto_account("expenses:groceries"),
        )
        .build()
        .unwrap();
    let mut ledger = Ledger::new();
    ledger.add_account(account);
    ledger
}

#[test]
fn a_grocery_run_drains_the_envelope_and_the_account() {
    // An entry of -50 against the account and +50 against the
    // envelope's companion account: the envelope's current balance
    // falls by 50, and so does the account's real value, in one pass.
    let mut ledger = checking_with_groceries();
    let date = Date::from_ymd(2024, 3, 1);
    let spend = entry_with(
        date,
        vec![
            Posting::Classic(ClassicPosting::new("assets:checking", Some(usd(-50)), None, None)),
            Posting::Classic(ClassicPosting::new("expenses:groceries", Some(usd(50)), None, None)),
        ],
    );
    ledger.add_entry(spend, &date).unwrap();

    let account = ledger.get_account("assets:checking").unwrap();
    let envelope = &account.envelopes[0];
    assert_eq!(envelope.get_now_amount().mag, -50);
    assert_eq!(envelope.get_next_amount().mag, 0);
    let sym = Some(String::from("USD"));
    assert_eq!(account.real_value.only(&sym).mag, -50);
    // The envelope absorbed the spending: the money was already
    // earmarked, so the un-earmarked value is unchanged.
    assert_eq!(account.get_available_value().unwrap().only(&sym).mag, 0);
    assert_eq!(ledger.get_entries().len(), 1);
}

#[test]
fn entries_keep_date_order() {
    let mut ledger = Ledger::new();
    let d1 = Date::from_ymd(2024, 3, 1);
    let d2 = Date::from_ymd(2024, 3, 5);
    let d3 = Date::from_ymd(2024, 3, 3);
    ledger.add_entry(entry_with(d1, Vec::new()), &d1).unwrap();
    ledger.add_entry(entry_with(d2, Vec::new()), &d2).unwrap();
    ledger.add_entry(entry_with(d3, Vec::new()), &d3).unwrap();
    let dates: Vec<Date> = ledger.get_entries().iter().map(|e| e.date).collect();
    assert_eq!(dates, vec![d1, d3, d2]);
}

#[test]
fn filling_entry_moves_money_to_envelopes() {
    let mut ledger = checking_with_groceries();
    let date = Date::from_ymd(2024, 3, 1);
    let income = entry_with(
        date,
        vec![
            Posting::Classic(ClassicPosting::new("assets:checking", Some(usd(1000)), None, None)),
            Posting::Classic(ClassicPosting::new("income:job", Some(usd(-1000)), None, None)),
        ],
    );
    ledger.add_entry(income, &date).unwrap();

    let filling = ledger.make_filling_entry(&date).unwrap().unwrap();
    assert_eq!(filling.date, date);
    assert_eq!(filling.status, EntryStatus::Cleared);
    assert_eq!(filling.postings.len(), 1);
    match &filling.postings[0] {
        Posting::Envelope(ep) => {
            // Due on the 5th, four days out, target 300: a conservative
            // fill moves a quarter of the shortfall.
            assert_eq!(ep.get_envelope_name(), "groceries");
            assert_eq!(ep.get_amount().mag, 75);
        }
        Posting::Classic(_) => panic!("expected an envelope posting"),
    }

    // Applying the filling entry earmarks the money.
    ledger.add_entry(filling, &date).unwrap();
    let account = ledger.get_account("assets:checking").unwrap();
    let sym = Some(String::from("USD"));
    assert_eq!(account.envelopes[0].get_next_amount().mag, 75);
    assert_eq!(account.get_available_value().unwrap().only(&sym).mag, 925);

    // With everything due already transacted today, a second pass
    // finds nothing to move.
    assert!(ledger.make_filling_entry(&date).unwrap().is_none());
}

#[test]
fn replacing_an_account_keeps_names_unique() {
    let mut ledger = checking_with_groceries();
    let fresh = AccountBuilder::new("assets:checking").build().unwrap();
    assert!(ledger.add_account(fresh));
    assert_eq!(ledger.get_accounts().len(), 1);
    assert_eq!(ledger.get_account("assets:checking").unwrap().envelopes.len(), 0);
    assert!(ledger.get_account("assets:savings").is_none());
}
