//! A step-by-step constructor for envelopes.

use crate::amount::Amount;
use crate::amount::clone_symbol;
use crate::date::Date;
use crate::envelope::Envelope;
use crate::envelope::EnvelopeType;
use crate::envelope::FundingMethod;
use crate::errors::SilverfoxResult;
use crate::frequency::Frequency;
use vstd::prelude::*;

verus! {

/// Collects the parts of an envelope before it is built: everything but
/// the name, kind and parent account starts out blank.
pub struct EnvelopeBuilder {
    /// The name of the account the envelope will belong to.
    pub parent_account: String,
    /// Whether it is an expense bucket or a savings goal.
    pub envelope_type: EnvelopeType,
    /// The envelope's name.
    pub name: String,
    /// When it is due.
    pub freq: Frequency,
    /// A fixed due date that overrides earlier computed ones.
    pub starting_date: Option<Date>,
    /// The target amount.
    pub amount: Amount,
    /// The companion accounts whose postings drive automatic transfers.
    pub auto_accounts: Vec<String>,
    /// How it fills automatically.
    pub funding: FundingMethod,
}

impl EnvelopeBuilder {
    /// Starts an envelope: no due date, a zero native target, no
    /// companion accounts, filled by hand.
    pub fn new(name: &str, envelope_type: EnvelopeType, parent_account: &str) -> (b: Self)
        ensures
            b.name@ == name@,
            b.envelope_type == envelope_type,
            b.parent_account@ == parent_account@,
            b.freq is Never,
            b.starting_date is None,
            b.amount.mag == 0 && b.amount.symbol is None,
            b.auto_accounts@.len() == 0,
            b.funding is Manual,
    {
        EnvelopeBuilder {
            parent_account: parent_account.to_owned(),
            envelope_type,
            name: name.to_owned(),
            freq: Frequency::Never,
            starting_date: None,
            amount: Amount::zero(),
            auto_accounts: Vec::new(),
            funding: FundingMethod::Manual,
        }
    }

    /// Sets when the envelope is due.
    pub fn freq(self, freq: Frequency) -> (b: Self)
        ensures
            b == (EnvelopeBuilder { freq, ..self }),
    {
        EnvelopeBuilder { freq, ..self }
    }

    /// Sets the fixed due date that overrides earlier computed ones.
    pub fn starting_date(self, starting_date: Date) -> (b: Self)
        ensures
            b == (EnvelopeBuilder { starting_date: Some(starting_date), ..self }),
    {
        EnvelopeBuilder { starting_date: Some(starting_date), ..self }
    }

    /// Sets the target amount.
    pub fn amount(self, amount: Amount) -> (b: Self)
        ensures
            b == (EnvelopeBuilder { amount, ..self }),
    {
        EnvelopeBuilder { amount, ..self }
    }

    /// Registers a companion account whose postings drive automatic
    /// transfers; registering one twice keeps a single copy.
    pub fn auto_account(self, account: &str) -> (b: Self)
        ensures
            b.parent_account == self.parent_account,
            b.envelope_type == self.envelope_type,
            b.name == self.name,
            b.freq == self.freq,
            b.starting_date == self.starting_date,
            b.amount == self.amount,
            b.funding == self.funding,
            forall|j: int|
                0 <= j < self.auto_accounts@.len() ==> b.auto_accounts@.map_values(
                    |a: String| a@,
                ).contains(self.auto_accounts@[j]@),
            b.auto_accounts@.map_values(|a: String| a@).contains(account@),
    {
        let mut this = self;
        let n = this.auto_accounts.len();
        let mut i: usize = 0;
        while i < n
            invariant
                0 <= i <= n,
                n == this.auto_accounts@.len(),
                this == self,
            decreases n - i,
        {
            if crate::utils::str_eq(this.auto_accounts[i].as_str(), account) {
                proof {
                    let ghost views = this.auto_accounts@.map_values(|a: String| a@);
                    assert(views[i as int] == account@);
                    assert(forall|j: int|
                        0 <= j < this.auto_accounts@.len() ==> views.contains(
                            #[trigger] this.auto_accounts@[j]@,
                        )) by {
                        assert(forall|j: int|
                            0 <= j < this.auto_accounts@.len() ==> views[j]
                                == #[trigger] this.auto_accounts@[j]@);
                    }
                }
                return this;
            }
            i = i + 1;
        }
        let ghost before = this.auto_accounts@;
        this.auto_accounts.push(account.to_owned());
        proof {
            let ghost views = this.auto_accounts@.map_values(|a: String| a@);
            assert(views[before.len() as int] == account@);
            assert(forall|j: int|
                0 <= j < before.len() ==> views[j] == #[trigger] before[j]@);
        }
        this
    }

    /// Sets how the envelope fills automatically.
    pub fn funding(self, method: FundingMethod) -> (b: Self)
        ensures
            b == (EnvelopeBuilder { funding: method, ..self }),
    {
        EnvelopeBuilder { funding: method, ..self }
    }

    /// Finishes the envelope: both balances start at zero in the
    /// target's currency, and no transaction has touched it yet.
    pub fn build(self) -> (r: SilverfoxResult<Envelope>)
        requires
            self.freq.is_valid(),
            self.starting_date matches Some(d) ==> d.is_valid(),
        ensures
            r matches Ok(e) ==> ({
                &&& e.wf()
                &&& e.name == self.name
                &&& e.amount == self.amount
                &&& e.envelope_type == self.envelope_type
                &&& e.auto_accounts == self.auto_accounts
                &&& e.freq == self.freq
                &&& e.funding == self.funding
                &&& e.starting_date == self.starting_date
                &&& e.parent_account == self.parent_account
                &&& e.now_amount.mag == 0
                &&& e.next_amount.mag == 0
                &&& e.last_transaction_date is None
            }),
            r is Ok,
    {
        let next_amount = Amount { mag: 0, symbol: clone_symbol(&self.amount.symbol) };
        let now_amount = Amount { mag: 0, symbol: clone_symbol(&self.amount.symbol) };
        Ok(
            Envelope {
                name: self.name,
                amount: self.amount,
                envelope_type: self.envelope_type,
                auto_accounts: self.auto_accounts,
                freq: self.freq,
                funding: self.funding,
                starting_date: self.starting_date,
                next_amount,
                now_amount,
                parent_account: self.parent_account,
                last_transaction_date: None,
            },
        )
    }
}

} // verus!
