//! Tests for accounts: envelopes, available value, and the fill walk.

use silverfox::account::Account;
use silverfox::account::builder::AccountBuilder;
use silverfox::amount::Amount;
use silverfox::amount::AmountPool;
use silverfox::date::Date;
use silverfox::entry::Entry;
use silverfox::entry::EntryStatus;
use silverfox::envelope::EnvelopeType;
use silverfox::envelope::FundingMethod;
use silverfox::envelope::builder::EnvelopeBuilder;
use silverfox::frequency::Frequency;
use silverfox::posting::ClassicPosting;
use silverfox::posting::EnvelopePosting;
use silverfox::posting::Posting;

fn native(mag: i64) -> Amount {
    Amount { mag, symbol: None }
}

fn entry_with(date: Date, postings: Vec<Posting>) -> Entry {
    Entry::new(date, EntryStatus::Cleared, String::from("test entry"), None, postings, None)
}

fn blank_account(name: &str) -> Account {
    Account { name: String::from(name), envelopes: Vec::new(), real_value: AmountPool::new() }
}

#[test]
fn duplicate_envelope_names_are_refused() {
    let mut account = blank_account("assets:checking");
    let e1 = EnvelopeBuilder::new("groceries", EnvelopeType::Expense, "assets:checking")
        .build()
        .unwrap();
    let e2 = EnvelopeBuilder::new("groceries", EnvelopeType::Goal, "assets:checking")
        .build()
        .unwrap();
    assert!(account.add_envelope(e1).is_ok());
    assert!(account.add_envelope(e2).is_err());
    assert_eq!(account.envelopes.len(), 1);
}

#[test]
fn available_value_subtracts_what_envelopes_hold() {
    let mut account = blank_account("assets:checking");
    let envelope = EnvelopeBuilder::new("groceries", EnvelopeType::Expense, "assets:checking")
        .freq(Frequency::Monthly(5))
        .amount(native(300))
        .build()
        .unwrap();
    account.add_envelope(envelope).unwrap();
    let date = Date::from_ymd(2024, 3, 1);
    // 200 arrives; 120 of it is earmarked by hand.
    let income = entry_with(
        date,
        vec![
            Posting::Classic(ClassicPosting::new(
                "assets:checking",
                Some(native(200)),
                None,
                None,
            )),
            Posting::Classic(ClassicPosting::new("income:job", Some(native(-200)), None, None)),
        ],
    );
    account.process_entry(&income, &date).unwrap();
    let earmark = entry_with(
        date,
        vec![Posting::Envelope(EnvelopePosting::new(
            String::from("assets:checking"),
            native(120),
            String::from("groceries"),
        ))],
    );
    account.process_entry(&earmark, &date).unwrap();
    let available = account.get_available_value().unwrap();
    assert_eq!(available.only(&None).mag, 80);
}

#[test]
fn overdrawn_accounts_drain_the_latest_due_envelope_first() {
    // Two funded envelopes with different due dates and an available
    // value of -20: the drain posting hits the later-due envelope
    // first, and covers the whole shortfall.
    let today = Date::from_ymd(2024, 3, 1);
    let soon = EnvelopeBuilder::new("soon", EnvelopeType::Expense, "assets:checking")
        .freq(Frequency::Once(Date::from_ymd(2024, 3, 11)))
        .amount(native(100))
        .funding(FundingMethod::Aggressive)
        .build()
        .unwrap();
    let later = EnvelopeBuilder::new("later", EnvelopeType::Expense, "assets:checking")
        .freq(Frequency::Once(Date::from_ymd(2024, 6, 11)))
        .amount(native(100))
        .funding(FundingMethod::Aggressive)
        .build()
        .unwrap();
    let mut account = blank_account("assets:checking");
    account.add_envelope(soon).unwrap();
    account.add_envelope(later).unwrap();

    let date = Date::from_ymd(2024, 2, 1);
    // Fund both envelopes 40 each by hand, with only 60 really there:
    // the available value ends at -20.
    let income = entry_with(
        date,
        vec![
            Posting::Classic(ClassicPosting::new("assets:checking", Some(native(60)), None, None)),
            Posting::Classic(ClassicPosting::new("income:job", Some(native(-60)), None, None)),
        ],
    );
    account.process_entry(&income, &date).unwrap();
    for name in ["soon", "later"] {
        let earmark = entry_with(
            date,
            vec![Posting::Envelope(EnvelopePosting::new(
                String::from("assets:checking"),
                native(40),
                String::from(name),
            ))],
        );
        account.process_entry(&earmark, &date).unwrap();
    }
    assert_eq!(account.get_available_value().unwrap().only(&None).mag, -20);

    let postings = account.get_filling_postings(&today).unwrap();
    assert_eq!(postings.len(), 1);
    match &postings[0] {
        Posting::Envelope(ep) => {
            assert_eq!(ep.get_envelope_name(), "later");
            assert_eq!(ep.get_amount().mag, -20);
        }
        Posting::Classic(_) => panic!("expected an envelope posting"),
    }
}

#[test]
fn positive_accounts_fill_the_soonest_due_envelope_first() {
    let today = Date::from_ymd(2024, 3, 1);
    let soon = EnvelopeBuilder::new("soon", EnvelopeType::Expense, "assets:checking")
        .freq(Frequency::Once(Date::from_ymd(2024, 3, 11)))
        .amount(native(100))
        .funding(FundingMethod::Aggressive)
        .build()
        .unwrap();
    let later = EnvelopeBuilder::new("later", EnvelopeType::Expense, "assets:checking")
        .freq(Frequency::Once(Date::from_ymd(2024, 6, 11)))
        .amount(native(100))
        .funding(FundingMethod::Aggressive)
        .build()
        .unwrap();
    let mut account = blank_account("assets:checking");
    // Add the later-due envelope first to show the walk sorts by date,
    // not by position.
    account.add_envelope(later).unwrap();
    account.add_envelope(soon).unwrap();
    let date = Date::from_ymd(2024, 2, 1);
    let income = entry_with(
        date,
        vec![
            Posting::Classic(ClassicPosting::new(
                "assets:checking",
                Some(native(150)),
                None,
                None,
            )),
            Posting::Classic(ClassicPosting::new("income:job", Some(native(-150)), None, None)),
        ],
    );
    account.process_entry(&income, &date).unwrap();

    let postings = account.get_filling_postings(&today).unwrap();
    assert_eq!(postings.len(), 2);
    match (&postings[0], &postings[1]) {
        (Posting::Envelope(first), Posting::Envelope(second)) => {
            assert_eq!(first.get_envelope_name(), "soon");
            assert_eq!(first.get_amount().mag, 100);
            assert_eq!(second.get_envelope_name(), "later");
            assert_eq!(second.get_amount().mag, 50);
        }
        _ => panic!("expected envelope postings"),
    }
}

#[test]
fn account_builder_assembles_envelopes() {
    let account = AccountBuilder::new("assets:checking")
        .envelope(EnvelopeBuilder::new("groceries", EnvelopeType::Expense, "assets:checking"))
        .envelope(EnvelopeBuilder::new("rainy", EnvelopeType::Goal, "assets:checking"))
        .build()
        .unwrap();
    assert_eq!(account.get_name(), "assets:checking");
    assert_eq!(account.envelopes.len(), 2);
}

#[test]
fn account_builder_refuses_duplicate_envelope_names() {
    let result = AccountBuilder::new("assets:checking")
        .envelope(EnvelopeBuilder::new("groceries", EnvelopeType::Expense, "assets:checking"))
        .envelope(EnvelopeBuilder::new("groceries", EnvelopeType::Goal, "assets:checking"))
        .build();
    assert!(result.is_err());
}
