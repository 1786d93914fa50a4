//! A step-by-step constructor for accounts.

use crate::account::Account;
use crate::amount::AmountPool;
use crate::envelope::Envelope;
use crate::envelope::builder::EnvelopeBuilder;
use crate::errors::SilverfoxResult;
use vstd::prelude::*;

verus! {

/// Collects the parts of an account before it is built.
pub struct AccountBuilder {
    /// The account's name.
    pub name: String,
    /// The builders of the account's envelopes, applied in order.
    pub envelope_builders: Vec<EnvelopeBuilder>,
}

/// True where the envelope is what building `b` yields: the builder's
/// fields carried over, both balances zero in the target's currency,
/// and no transaction yet.
pub open spec fn env_built_from(e: Envelope, b: EnvelopeBuilder) -> bool {
    &&& e.wf()
    &&& e.name == b.name
    &&& e.amount == b.amount
    &&& e.envelope_type == b.envelope_type
    &&& e.auto_accounts == b.auto_accounts
    &&& e.freq == b.freq
    &&& e.funding == b.funding
    &&& e.starting_date == b.starting_date
    &&& e.parent_account == b.parent_account
    &&& e.now_amount.mag == 0
    &&& e.next_amount.mag == 0
    &&& e.last_transaction_date is None
}

impl AccountBuilder {
    /// Starts an account of the given name with no envelopes.
    pub fn new(name: &str) -> (b: Self)
        ensures
            b.name@ == name@,
            b.envelope_builders@.len() == 0,
    {
        AccountBuilder { name: name.to_owned(), envelope_builders: Vec::new() }
    }

    /// Renames the account.
    pub fn name(self, name: &str) -> (b: Self)
        ensures
            b.name@ == name@,
            b.envelope_builders == self.envelope_builders,
    {
        AccountBuilder { name: name.to_owned(), envelope_builders: self.envelope_builders }
    }

    /// Adds an envelope builder.
    pub fn envelope(self, builder: EnvelopeBuilder) -> (b: Self)
        ensures
            b.name == self.name,
            b.envelope_builders@ == self.envelope_builders@.push(builder),
    {
        let mut this = self;
        this.envelope_builders.push(builder);
        this
    }

    /// Finishes the account: builds every envelope, in order, into an
    /// account with an empty real value. Success is owed exactly where
    /// no two builders share an envelope name; the built account then
    /// carries one envelope per builder, in the builders' order.
    pub fn build(self) -> (r: SilverfoxResult<Account>)
        requires
            forall|j: int|
                0 <= j < self.envelope_builders@.len() ==> (#[trigger] self.envelope_builders@[j]).freq.is_valid()
                    && (self.envelope_builders@[j].starting_date matches Some(d) ==> d.is_valid()),
        ensures
            r is Ok <==> (forall|a: int, b: int|
                0 <= a < b < self.envelope_builders@.len()
                    ==> (#[trigger] self.envelope_builders@[a]).name@
                    != (#[trigger] self.envelope_builders@[b]).name@),
            r matches Ok(acct) ==> ({
                &&& acct.wf()
                &&& acct.name == self.name
                &&& acct.real_value@.len() == 0
                &&& acct.envelopes@.len() == self.envelope_builders@.len()
                &&& forall|j: int|
                    0 <= j < self.envelope_builders@.len() ==> env_built_from(
                        #[trigger] acct.envelopes@[j],
                        self.envelope_builders@[j],
                    )
            }),
    {
        let mut account = Account {
            name: self.name,
            envelopes: Vec::new(),
            real_value: AmountPool::new(),
        };
        let ghost account_name = account.name;
        let ghost originals = self.envelope_builders@;
        let mut builders = self.envelope_builders;
        let n = builders.len();
        let mut i: usize = 0;
        while i < n
            invariant
                0 <= i <= n,
                n == originals.len(),
                originals == self.envelope_builders@,
                builders@ =~= originals.skip(i as int),
                account.wf(),
                account.name == account_name,
                account.real_value@.len() == 0,
                account.envelopes@.len() == i,
                forall|j: int|
                    0 <= j < originals.len() ==> (#[trigger] originals[j]).freq.is_valid() && (
                    originals[j].starting_date matches Some(d) ==> d.is_valid()),
                forall|j: int|
                    0 <= j < i ==> env_built_from(#[trigger] account.envelopes@[j], originals[j]),
            ensures
                i == n == originals.len(),
                account.wf(),
                account.name == account_name,
                account.real_value@.len() == 0,
                account.envelopes@.len() == originals.len(),
                forall|j: int|
                    0 <= j < originals.len() ==> env_built_from(
                        #[trigger] account.envelopes@[j],
                        originals[j],
                    ),
            decreases builders@.len(),
        {
            let b = builders.remove(0);
            proof {
                assert(b == originals[i as int]);
                assert(builders@ =~= originals.skip(i as int + 1));
            }
            match b.build() {
                Ok(e) => {
                    match account.add_envelope(e) {
                        Ok(()) => {},
                        Err(err) => {
                            proof {
                                // The refused envelope repeats the name of an
                                // earlier one, so two builders share a name.
                                let j = choose|j: int|
                                    0 <= j < account.envelopes@.len()
                                        && account.envelopes@[j].name@ == e.name@;
                                assert(env_built_from(account.envelopes@[j], originals[j]));
                                assert(0 <= j < i as int);
                                assert(originals[j].name@ == originals[i as int].name@);
                                assert(!(forall|a: int, b: int|
                                    0 <= a < b < originals.len()
                                        ==> (#[trigger] originals[a]).name@
                                        != (#[trigger] originals[b]).name@));
                            }
                            return Err(crate::errors::SilverfoxError::Validation(err));
                        },
                    }
                },
                Err(err) => {
                    proof {
                        assert(false);
                    }
                    return Err(err);
                },
            }
            i = i + 1;
        }
        proof {
            assert forall|a: int, b: int|
                0 <= a < b < originals.len() implies (#[trigger] originals[a]).name@
                != (#[trigger] originals[b]).name@ by {
                assert(account.envelopes@[a].name@ == originals[a].name@);
                assert(account.envelopes@[b].name@ == originals[b].name@);
            }
        }
        Ok(account)
    }
}

} // verus!
