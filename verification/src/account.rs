//! Accounts: the owners of envelopes and of a real balance.
//!
//! An [`Account`] holds uniquely named envelopes and the account's real
//! value: the running total of the non-envelope postings addressed to
//! it. From those it computes the available (un-earmarked) value and,
//! for a given day, the ordered postings that fill or drain its
//! envelopes.

pub mod builder;

use crate::amount::Amount;
use crate::amount::AmountPool;
use crate::amount::AmountView;
use crate::amount::clone_symbol;
use crate::amount::pool_wf;
use crate::amount::spec_only;
use crate::amount::spec_symbol;
use crate::date::Date;
use crate::entry::Entry;
use crate::entry::blank_outcome;
use crate::entry::has_blank;
use crate::envelope::Envelope;
use crate::errors::ProcessingError;
use crate::errors::ValidationError;
use crate::posting::Posting;
use crate::posting::PostingView;
use vstd::prelude::*;

verus! {

/// An account: a name, its envelopes, and its real value.
#[derive(Debug)]
pub struct Account {
    /// The account's name.
    pub name: String,
    /// The account's envelopes, unique by name.
    pub envelopes: Vec<Envelope>,
    /// The real, actual value of this account, which ignores envelopes
    /// and virtual postings.
    pub real_value: AmountPool,
}

/// The inferred blank amount an entry settles on, where the inference
/// goes through; what the contribution sums below read for blank
/// postings.
pub open spec fn blank_value(postings: Seq<PostingView>) -> Option<AmountView> {
    if has_blank(postings) {
        match blank_outcome(postings) {
            Some(o) => o,
            None => None,
        }
    } else {
        None
    }
}

/// The sum the entry's postings contribute to the account's real value
/// for currency `s`, from `k` on: the amounts (blank ones inferred) of
/// the non-envelope postings addressed to `acct` whose currency is `s`.
pub open spec fn real_contrib_sum(
    postings: Seq<PostingView>,
    k: int,
    blank: Option<AmountView>,
    acct: Seq<char>,
    s: Option<Seq<char>>,
) -> int
    decreases postings.len() - k when 0 <= k <= postings.len()
{
    if k >= postings.len() {
        0
    } else {
        (match postings[k] {
            PostingView::Classic(c) => {
                if c.account == acct {
                    match (match c.amount {
                        Some(a) => Some(a),
                        None => blank,
                    }) {
                        Some(av) => if av.symbol == s {
                            av.mag
                        } else {
                            0
                        },
                        None => 0,
                    }
                } else {
                    0
                }
            },
            PostingView::Envelope(_) => 0,
        }) + real_contrib_sum(postings, k + 1, blank, acct, s)
    }
}

/// What the envelopes from position `k` on have earmarked in currency
/// `s`: the sum of their current and following balances held in it.
pub open spec fn earmarked_from(envs: Seq<Envelope>, k: int, s: Option<Seq<char>>) -> int
    decreases envs.len() - k when 0 <= k <= envs.len()
{
    if k >= envs.len() {
        0
    } else {
        (if spec_symbol(envs[k].next_amount.symbol) == s {
            envs[k].next_amount.mag as int
        } else {
            0
        }) + (if spec_symbol(envs[k].now_amount.symbol) == s {
            envs[k].now_amount.mag as int
        } else {
            0
        }) + earmarked_from(envs, k + 1, s)
    }
}

/// The account's available value for symbol `s` before envelope `k` is
/// taken out: the real value less what the first `k` envelopes hold.
pub open spec fn avail_before(
    balances: Seq<Amount>,
    envs: Seq<Envelope>,
    k: int,
    s: Option<Seq<char>>,
) -> int {
    spec_only(balances, s) - (earmarked_from(envs, 0, s) - earmarked_from(envs, k, s))
}

/// True where computing the available value stays within the
/// magnitude's machine type: at every envelope of the walk, the running
/// total of its currency still fits after its next-period and after its
/// current-period balance come out.
pub open spec fn available_fits(balances: Seq<Amount>, envs: Seq<Envelope>) -> bool {
    forall|k: int|
        0 <= k < envs.len() ==> ({
            let s = spec_symbol((#[trigger] envs[k]).next_amount.symbol);
            &&& i64::MIN <= avail_before(balances, envs, k, s) - envs[k].next_amount.mag
                <= i64::MAX
            &&& i64::MIN <= avail_before(balances, envs, k, s) - envs[k].next_amount.mag
                - envs[k].now_amount.mag <= i64::MAX
        })
}

/// The relation between an envelope before and after one entry: the
/// shape is kept, and the new state is exactly what the entry's
/// explicit envelope postings, or inference, make of the old one.
pub open spec fn env_processed(
    e0: Envelope,
    e1: Envelope,
    postings: Seq<PostingView>,
    date: Date,
    today: Date,
) -> bool {
    &&& e1.same_shape(e0)
    &&& e1.wf()
    &&& exists|ld: Option<Date>|
        #[trigger] crate::frequency::last_due_matches(e0.freq, today, ld) && (
        if crate::entry::has_envelope(postings) {
            crate::envelope::fold_manual(
                postings,
                0,
                e0.state(),
                e0.parent_account@,
                e0.name@,
                spec_symbol(e0.amount.symbol),
                date,
                ld,
            ) == Some(e1.state())
        } else {
            crate::envelope::infer_outcome(e0, postings, date, ld) == Some(e1.state())
        })
}

/// The relation between an account before and after one entry: every
/// envelope has seen it, and the real value moved by exactly the
/// entry's contribution per currency.
pub open spec fn account_processed(
    a0: Account,
    a1: Account,
    postings: Seq<PostingView>,
    date: Date,
    today: Date,
) -> bool {
    &&& a1.name == a0.name
    &&& a1.envelopes@.len() == a0.envelopes@.len()
    &&& forall|j: int|
        0 <= j < a0.envelopes@.len() ==> env_processed(
            a0.envelopes@[j],
            #[trigger] a1.envelopes@[j],
            postings,
            date,
            today,
        )
    &&& forall|s: Option<Seq<char>>|
        spec_only(a1.real_value@, s) == spec_only(a0.real_value@, s) + real_contrib_sum(
            postings,
            0,
            blank_value(postings),
            a0.name@,
            s,
        )
}

/// True where processing the entry succeeds for the whole account:
/// every envelope can process it, any blank posting's amount can be
/// inferred, and the real value's move stays within the magnitude's
/// machine type for every currency.
pub open spec fn account_entry_ok(
    a: Account,
    postings: Seq<PostingView>,
    date: Date,
    today: Date,
) -> bool {
    &&& forall|j: int|
        0 <= j < a.envelopes@.len() ==> crate::envelope::env_entry_ok(
            #[trigger] a.envelopes@[j],
            postings,
            date,
            today,
        )
    &&& (has_blank(postings) ==> blank_outcome(postings) is Some)
    &&& forall|s: Option<Seq<char>>|
        #![trigger real_contrib_sum(postings, 0, blank_value(postings), a.name@, s)]
        ({
            let c = real_contrib_sum(postings, 0, blank_value(postings), a.name@, s);
            &&& i64::MIN <= c <= i64::MAX
            &&& i64::MIN <= spec_only(a.real_value@, s) + c <= i64::MAX
        })
}

/// The total a contribution accumulator holds for symbol `s`, read from
/// position `k` on: the total of the first entry with that symbol, or
/// zero.
pub open spec fn acc_total_from(acc: Seq<(Amount, i128)>, s: Option<Seq<char>>, k: int) -> int
    decreases acc.len() - k when 0 <= k <= acc.len()
{
    if k >= acc.len() {
        0
    } else if spec_symbol(acc[k].0.symbol) == s {
        acc[k].1 as int
    } else {
        acc_total_from(acc, s, k + 1)
    }
}

/// True where no two accumulator entries carry the same symbol.
pub open spec fn acc_wf(acc: Seq<(Amount, i128)>) -> bool {
    forall|i: int, j: int|
        0 <= i < j < acc.len() ==> spec_symbol(acc[i].0.symbol) != spec_symbol(acc[j].0.symbol)
}

/// An accumulator with no entry for `s` from `k` on holds zero for it.
proof fn lemma_acc_no_match(acc: Seq<(Amount, i128)>, s: Option<Seq<char>>, k: int)
    requires
        0 <= k <= acc.len(),
        forall|j: int| k <= j < acc.len() ==> spec_symbol(acc[j].0.symbol) != s,
    ensures
        acc_total_from(acc, s, k) == 0,
    decreases acc.len() - k,
{
    if k < acc.len() {
        lemma_acc_no_match(acc, s, k + 1);
    }
}

/// An accumulator whose first entry for `s` at or past `k` sits at `i`
/// holds that entry's total for `s`.
proof fn lemma_acc_match(acc: Seq<(Amount, i128)>, s: Option<Seq<char>>, k: int, i: int)
    requires
        0 <= k <= i < acc.len(),
        spec_symbol(acc[i].0.symbol) == s,
        forall|j: int| k <= j < i ==> spec_symbol(acc[j].0.symbol) != s,
    ensures
        acc_total_from(acc, s, k) == acc[i].1,
    decreases i - k,
{
    if k < i {
        lemma_acc_match(acc, s, k + 1, i);
    }
}

/// Replacing an entry of another symbol leaves the total for `s` alone.
proof fn lemma_acc_update_other(
    acc: Seq<(Amount, i128)>,
    i: int,
    e: (Amount, i128),
    s: Option<Seq<char>>,
    k: int,
)
    requires
        0 <= k <= acc.len(),
        0 <= i < acc.len(),
        spec_symbol(e.0.symbol) != s,
        spec_symbol(acc[i].0.symbol) != s,
    ensures
        acc_total_from(acc.update(i, e), s, k) == acc_total_from(acc, s, k),
    decreases acc.len() - k,
{
    if k < acc.len() {
        lemma_acc_update_other(acc, i, e, s, k + 1);
    }
}

/// Appending an entry of another symbol leaves the total for `s` alone.
proof fn lemma_acc_push_other(
    acc: Seq<(Amount, i128)>,
    e: (Amount, i128),
    s: Option<Seq<char>>,
    k: int,
)
    requires
        0 <= k <= acc.len(),
        spec_symbol(e.0.symbol) != s,
    ensures
        acc_total_from(acc.push(e), s, k) == acc_total_from(acc, s, k),
    decreases acc.len() - k,
{
    if k < acc.len() {
        lemma_acc_push_other(acc, e, s, k + 1);
    } else {
        assert(acc_total_from(acc.push(e), s, acc.len() as int + 1) == 0);
    }
}

/// Adds one amount into the accumulator: onto the entry of its symbol,
/// or as a fresh entry. Totals are wide enough that no sum of i64
/// magnitudes can overflow while the count stays bounded.
fn acc_add(acc: &mut Vec<(Amount, i128)>, a: &Amount, bound: u64)
    requires
        acc_wf(old(acc)@),
        forall|j: int|
            0 <= j < old(acc)@.len() ==> -((bound as int) * 0x8000000000000000)
                <= (#[trigger] old(acc)@[j]).1 <= (bound as int) * 0x8000000000000000,
        bound < 2000000000,
    ensures
        acc_wf(final(acc)@),
        forall|j: int|
            0 <= j < final(acc)@.len() ==> -((bound as int + 1) * 0x8000000000000000)
                <= (#[trigger] final(acc)@[j]).1 <= (bound as int + 1) * 0x8000000000000000,
        acc_total_from(final(acc)@, spec_symbol(a.symbol), 0) == acc_total_from(
            old(acc)@,
            spec_symbol(a.symbol),
            0,
        ) + a.mag,
        forall|s: Option<Seq<char>>|
            s != spec_symbol(a.symbol) ==> acc_total_from(final(acc)@, s, 0) == acc_total_from(
                old(acc)@,
                s,
                0,
            ),
{
    let ghost sym = spec_symbol(a.symbol);
    let n = acc.len();
    let mut i: usize = 0;
    while i < n
        invariant
            0 <= i <= n,
            n == acc@.len(),
            sym == spec_symbol(a.symbol),
            acc_wf(acc@),
            bound < 2000000000,
            forall|j: int|
                0 <= j < acc@.len() ==> -((bound as int) * 0x8000000000000000)
                    <= (#[trigger] acc@[j]).1 <= (bound as int) * 0x8000000000000000,
            forall|j: int| 0 <= j < i ==> spec_symbol(acc@[j].0.symbol) != sym,
            acc@ == old(acc)@,
        decreases n - i,
    {
        if crate::amount::symbols_match(&acc[i].0.symbol, &a.symbol) {
            proof {
                lemma_acc_match(acc@, sym, 0, i as int);
            }
            let e = (
                Amount { mag: acc[i].0.mag, symbol: clone_symbol(&acc[i].0.symbol) },
                acc[i].1 + a.mag as i128,
            );
            proof {
                assert(spec_symbol(e.0.symbol) == sym);
            }
            acc[i] = e;
            proof {
                lemma_acc_match(acc@, sym, 0, i as int);
                assert forall|s: Option<Seq<char>>| s != sym implies acc_total_from(acc@, s, 0)
                    == acc_total_from(old(acc)@, s, 0) by {
                    lemma_acc_update_other(old(acc)@, i as int, e, s, 0);
                }
            }
            return ;
        }
        i = i + 1;
    }
    proof {
        lemma_acc_no_match(acc@, sym, 0);
    }
    let e = (Amount { mag: a.mag, symbol: clone_symbol(&a.symbol) }, a.mag as i128);
    proof {
        assert(spec_symbol(e.0.symbol) == sym);
    }
    let ghost p0 = acc@;
    acc.push(e);
    proof {
        lemma_acc_match(acc@, sym, 0, p0.len() as int);
        assert forall|s: Option<Seq<char>>| s != sym implies acc_total_from(acc@, s, 0)
            == acc_total_from(p0, s, 0) by {
            lemma_acc_push_other(p0, e, s, 0);
        }
    }
}

impl Account {
    /// The well-formedness every account keeps: a well-formed pool,
    /// well-formed envelopes, and no two envelopes of one name.
    pub open spec fn wf(self) -> bool {
        &&& pool_wf(self.real_value@)
        &&& forall|j: int| 0 <= j < self.envelopes@.len() ==> (#[trigger] self.envelopes@[j]).wf()
        &&& forall|i: int, j: int|
            0 <= i < j < self.envelopes@.len() ==> self.envelopes@[i].name@
                != self.envelopes@[j].name@
    }

    /// Returns the name of the account.
    pub fn get_name(&self) -> (r: &str)
        ensures
            r@ == self.name@,
    {
        self.name.as_str()
    }

    /// Adds an envelope to the account; a second envelope of one name
    /// is refused and changes nothing.
    pub fn add_envelope(&mut self, envelope: Envelope) -> (r: Result<(), ValidationError>)
        requires
            old(self).wf(),
            envelope.wf(),
        ensures
            final(self).wf(),
            final(self).name == old(self).name,
            final(self).real_value == old(self).real_value,
            (exists|j: int|
                0 <= j < old(self).envelopes@.len() && old(self).envelopes@[j].name@
                    == envelope.name@) ==> (r is Err && final(self).envelopes == old(
                self,
            ).envelopes),
            !(exists|j: int|
                0 <= j < old(self).envelopes@.len() && old(self).envelopes@[j].name@
                    == envelope.name@) ==> (r is Ok && final(self).envelopes@ == old(
                self,
            ).envelopes@.push(envelope)),
    {
        let n = self.envelopes.len();
        let mut i: usize = 0;
        while i < n
            invariant
                0 <= i <= n,
                n == self.envelopes@.len(),
                *self == *old(self),
                old(self).wf(),
                forall|j: int| 0 <= j < i ==> self.envelopes@[j].name@ != envelope.name@,
            decreases n - i,
    {
            if crate::utils::str_eq(self.envelopes[i].get_name(), envelope.name.as_str()) {
                return Err(
                    ValidationError::new().set_message(
                        "there is a duplicate envelope definition in an account",
                    ),
                );
            }
            i = i + 1;
        }
        self.envelopes.push(envelope);
        Ok(())
    }

    /// The account's available value: the real value less everything
    /// earmarked in envelopes, per currency. Success is owed exactly
    /// where every running total of the walk stays within the
    /// magnitude's machine type.
    pub fn get_available_value(&self) -> (r: Result<AmountPool, ProcessingError>)
        requires
            self.wf(),
        ensures
            r matches Ok(pool) ==> pool.wf(),
            r matches Ok(pool) ==> forall|s: Option<Seq<char>>|
                spec_only(pool@, s) == spec_only(self.real_value@, s) - earmarked_from(
                    self.envelopes@,
                    0,
                    s,
                ),
            r is Ok <==> available_fits(self.real_value@, self.envelopes@),
    {
        let mut pool = self.real_value.duplicate();
        let n = self.envelopes.len();
        let mut i: usize = 0;
        while i < n
            invariant
                0 <= i <= n,
                n == self.envelopes@.len(),
                pool.wf(),
                self.wf(),
                forall|j: int| 0 <= j < n ==> (#[trigger] self.envelopes@[j]).wf(),
                forall|s: Option<Seq<char>>|
                    spec_only(pool@, s) == spec_only(self.real_value@, s) - (earmarked_from(
                        self.envelopes@,
                        0,
                        s,
                    ) - earmarked_from(self.envelopes@, i as int, s)),
                forall|k: int|
                    0 <= k < i ==> ({
                        let s = spec_symbol((#[trigger] self.envelopes@[k]).next_amount.symbol);
                        &&& i64::MIN <= avail_before(self.real_value@, self.envelopes@, k, s)
                            - self.envelopes@[k].next_amount.mag <= i64::MAX
                        &&& i64::MIN <= avail_before(self.real_value@, self.envelopes@, k, s)
                            - self.envelopes@[k].next_amount.mag
                            - self.envelopes@[k].now_amount.mag <= i64::MAX
                    }),
            decreases n - i,
        {
            let ghost s_i = spec_symbol(self.envelopes@[i as int].next_amount.symbol);
            proof {
                assert(spec_only(pool@, s_i) == avail_before(
                    self.real_value@,
                    self.envelopes@,
                    i as int,
                    s_i,
                ));
            }
            match pool.subtract(self.envelopes[i].get_next_amount()) {
                Ok(()) => {},
                Err(e) => {
                    proof {
                        assert(!available_fits(self.real_value@, self.envelopes@));
                    }
                    return Err(e);
                },
            }
            match pool.subtract(self.envelopes[i].get_now_amount()) {
                Ok(()) => {},
                Err(e) => {
                    proof {
                        assert(spec_symbol(self.envelopes@[i as int].now_amount.symbol) == s_i);
                        assert(!available_fits(self.real_value@, self.envelopes@));
                    }
                    return Err(e);
                },
            }
            i = i + 1;
        }
        Ok(pool)
    }

    /// Processes the Entry: every envelope sees it first, then the
    /// non-envelope postings addressed to this account move its real
    /// value — blank postings by their inferred amount. The entry's
    /// whole contribution per currency is what `real_contrib_sum`
    /// describes.
    pub fn process_entry(&mut self, entry: &Entry, today: &Date) -> (r: Result<
        (),
        ProcessingError,
    >)
        requires
            old(self).wf(),
            today.is_valid(),
            entry.date.is_valid(),
            entry@.postings.len() <= 1000000000,
        ensures
            final(self).wf(),
            final(self).name == old(self).name,
            final(self).envelopes@.len() == old(self).envelopes@.len(),
            r is Ok ==> forall|j: int|
                0 <= j < old(self).envelopes@.len() ==> env_processed(
                    old(self).envelopes@[j],
                    #[trigger] final(self).envelopes@[j],
                    entry@.postings,
                    entry@.date,
                    *today,
                ),
            r is Ok ==> forall|s: Option<Seq<char>>|
                spec_only(final(self).real_value@, s) == spec_only(old(self).real_value@, s)
                    + real_contrib_sum(
                    entry@.postings,
                    0,
                    blank_value(entry@.postings),
                    old(self).name@,
                    s,
                ),
            r is Ok ==> account_processed(
                *old(self),
                *final(self),
                entry@.postings,
                entry@.date,
                *today,
            ),
            r is Ok <==> account_entry_ok(*old(self), entry@.postings, entry@.date, *today),
    {
        let ghost postings = entry@.postings;
        let ghost acct = old(self).name@;
        let n_env = self.envelopes.len();
        let mut i: usize = 0;
        while i < n_env
            invariant
                0 <= i <= n_env,
                n_env == self.envelopes@.len(),
                n_env == old(self).envelopes@.len(),
                self.name == old(self).name,
                self.real_value == old(self).real_value,
                pool_wf(self.real_value@),
                today.is_valid(),
                entry.date.is_valid(),
                entry@.postings.len() <= 1000000000,
                forall|j: int| i <= j < n_env ==> self.envelopes@[j] == old(self).envelopes@[j],
                forall|j: int|
                    i <= j < n_env ==> (#[trigger] self.envelopes@[j]).wf(),
                forall|j: int|
                    0 <= j < i ==> env_processed(
                        old(self).envelopes@[j],
                        #[trigger] self.envelopes@[j],
                        entry@.postings,
                        entry@.date,
                        *today,
                    ),
                forall|j: int|
                    0 <= j < i ==> crate::envelope::env_entry_ok(
                        #[trigger] old(self).envelopes@[j],
                        entry@.postings,
                        entry@.date,
                        *today,
                    ),
                forall|a: int, b: int|
                    0 <= a < b < n_env ==> old(self).envelopes@[a].name@ != old(
                        self,
                    ).envelopes@[b].name@,
            decreases n_env - i,
        {
            let ghost pre_envelope = self.envelopes@[i as int];
            let mut e = self.envelopes.remove(i);
            let outcome = e.process_entry(entry, today);
            self.envelopes.insert(i, e);
            match outcome {
                Ok(()) => {
                    proof {
                        assert(crate::envelope::env_entry_ok(
                            old(self).envelopes@[i as int],
                            entry@.postings,
                            entry@.date,
                            *today,
                        ));
                    }
                },
                Err(err) => {
                    proof {
                        assert(pre_envelope == old(self).envelopes@[i as int]);
                        assert(!crate::envelope::env_entry_ok(
                            old(self).envelopes@[i as int],
                            entry@.postings,
                            entry@.date,
                            *today,
                        ));
                        assert(!account_entry_ok(*old(self), entry@.postings, entry@.date, *today));
                    }
                    // Leave a consistent account behind: the envelopes
                    // before this one have already been processed.
                    proof {
                        assert forall|a: int, b: int|
                            0 <= a < b < n_env implies self.envelopes@[a].name@
                            != self.envelopes@[b].name@ by {
                            assert(self.envelopes@[a].name@ == old(self).envelopes@[a].name@);
                            assert(self.envelopes@[b].name@ == old(self).envelopes@[b].name@);
                        }
                    }
                    return Err(err);
                },
            }
            i = i + 1;
        }
        proof {
            assert forall|a: int, b: int|
                0 <= a < b < n_env implies self.envelopes@[a].name@
                != self.envelopes@[b].name@ by {
                assert(self.envelopes@[a].name@ == old(self).envelopes@[a].name@);
                assert(self.envelopes@[b].name@ == old(self).envelopes@[b].name@);
            }
        }
        // Gather the entry's contribution to the real value, one total
        // per currency, then apply each total once.
        let has_blank_posting = entry.has_blank_posting();
        let blank: Option<Amount> = if has_blank_posting {
            match entry.get_blank_amount() {
                Ok(Some(b)) => Some(b),
                Ok(None) => None,
                Err(e) => {
                    proof {
                        assert(!account_entry_ok(*old(self), entry@.postings, entry@.date, *today));
                    }
                    return Err(e);
                },
            }
        } else {
            None
        };
        let ghost blankv: Option<AmountView> = match &blank {
            Some(b) => Some(b@),
            None => None,
        };
        proof {
            assert(blankv == blank_value(postings));
            assert(has_blank(postings) ==> blank_outcome(postings) is Some);
        }
        let n = entry.get_postings().len();
        let mut acc: Vec<(Amount, i128)> = Vec::new();
        let mut k: usize = 0;
        while k < n
            invariant
                0 <= k <= n,
                n == entry@.postings.len(),
                entry.postings@.len() == n,
                n <= 1000000000,
                postings == entry@.postings,
                acct == self.name@,
                self.name == old(self).name,
                n_env == self.envelopes@.len(),
                n_env == old(self).envelopes@.len(),
                forall|j: int|
                    0 <= j < n_env ==> env_processed(
                        old(self).envelopes@[j],
                        #[trigger] self.envelopes@[j],
                        entry@.postings,
                        entry@.date,
                        *today,
                    ),
                forall|j: int|
                    0 <= j < n_env ==> crate::envelope::env_entry_ok(
                        #[trigger] old(self).envelopes@[j],
                        entry@.postings,
                        entry@.date,
                        *today,
                    ),
                has_blank(postings) ==> blank_outcome(postings) is Some,
                forall|a: int, b: int|
                    0 <= a < b < n_env ==> self.envelopes@[a].name@ != self.envelopes@[b].name@,
                pool_wf(self.real_value@),
                self.real_value == old(self).real_value,
                blank matches Some(b) ==> blankv == Some(b@),
                blank is None ==> blankv is None,
                acc_wf(acc@),
                forall|j: int|
                    0 <= j < acc@.len() ==> -((k as int) * 0x8000000000000000)
                        <= (#[trigger] acc@[j]).1 <= (k as int) * 0x8000000000000000,
                forall|s: Option<Seq<char>>|
                    acc_total_from(acc@, s, 0) == real_contrib_sum(postings, 0, blankv, acct, s)
                        - real_contrib_sum(postings, k as int, blankv, acct, s),
            decreases n - k,
        {
            let p = &entry.get_postings()[k];
            let mut share: Option<Amount> = None;
            match p {
                Posting::Classic(c) => {
                    if crate::utils::str_eq(c.account.as_str(), self.name.as_str()) {
                        match &c.amount {
                            Some(a) => {
                                share = Some(a.duplicate());
                            },
                            None => {
                                match &blank {
                                    Some(b) => {
                                        share = Some(b.duplicate());
                                    },
                                    None => {},
                                }
                            },
                        }
                    }
                },
                Posting::Envelope(_) => {},
            }
            match &share {
                Some(a) => {
                    acc_add(&mut acc, a, k as u64);
                },
                None => {},
            }
            k = k + 1;
        }
        let m = acc.len();
        let mut t: usize = 0;
        while t < m
            invariant
                0 <= t <= m,
                m == acc@.len(),
                postings == entry@.postings,
                acct == old(self).name@,
                self.name == old(self).name,
                n_env == self.envelopes@.len(),
                n_env == old(self).envelopes@.len(),
                forall|j: int|
                    0 <= j < n_env ==> env_processed(
                        old(self).envelopes@[j],
                        #[trigger] self.envelopes@[j],
                        entry@.postings,
                        entry@.date,
                        *today,
                    ),
                forall|j: int|
                    0 <= j < n_env ==> crate::envelope::env_entry_ok(
                        #[trigger] old(self).envelopes@[j],
                        entry@.postings,
                        entry@.date,
                        *today,
                    ),
                has_blank(postings) ==> blank_outcome(postings) is Some,
                forall|a: int, b: int|
                    0 <= a < b < n_env ==> self.envelopes@[a].name@ != self.envelopes@[b].name@,
                blank matches Some(b) ==> blankv == Some(b@),
                blank is None ==> blankv is None,
                blankv == blank_value(postings),
                pool_wf(self.real_value@),
                acc_wf(acc@),
                forall|s: Option<Seq<char>>|
                    acc_total_from(acc@, s, 0) == real_contrib_sum(postings, 0, blankv, acct, s),
                forall|s: Option<Seq<char>>|
                    spec_only(self.real_value@, s) == spec_only(old(self).real_value@, s)
                        + acc_total_from(acc@, s, 0) - acc_total_from(acc@, s, t as int),
                forall|u: int|
                    0 <= u < t ==> (i64::MIN <= (#[trigger] acc@[u]).1 <= i64::MAX && i64::MIN
                        <= spec_only(old(self).real_value@, spec_symbol(acc@[u].0.symbol))
                        + acc@[u].1 <= i64::MAX),
            decreases m - t,
        {
            let ghost sym_t = spec_symbol(acc@[t as int].0.symbol);
            proof {
                lemma_acc_at(acc@, t as int);
                assert forall|j: int| 0 <= j < t as int implies spec_symbol(
                    acc@[j].0.symbol,
                ) != sym_t by {}
                lemma_acc_match(acc@, sym_t, 0, t as int);
                assert(acc_total_from(acc@, sym_t, 0) == acc@[t as int].1);
                assert(real_contrib_sum(postings, 0, blankv, acct, sym_t) == acc@[t as int].1);
                assert(spec_only(self.real_value@, sym_t) == spec_only(
                    old(self).real_value@,
                    sym_t,
                ));
            }
            let tot = acc[t].1;
            if tot < -0x8000000000000000i128 || tot > 0x7fffffffffffffffi128 {
                proof {
                    assert(!account_entry_ok(*old(self), entry@.postings, entry@.date, *today));
                }
                return Err(
                    ProcessingError::new().set_message(
                        "an account's balance moved past what this build can count",
                    ),
                );
            }
            let a = Amount { mag: tot as i64, symbol: clone_symbol(&acc[t].0.symbol) };
            match self.real_value.add(&a) {
                Ok(()) => {},
                Err(e) => {
                    proof {
                        assert(spec_only(old(self).real_value@, sym_t) + acc@[t as int].1
                            < i64::MIN || spec_only(old(self).real_value@, sym_t) + acc@[
                            t as int].1 > i64::MAX);
                        assert(!account_entry_ok(
                            *old(self),
                            entry@.postings,
                            entry@.date,
                            *today,
                        ));
                    }
                    return Err(e);
                },
            }
            t = t + 1;
        }
        proof {
            lemma_account_entry_ok_at_end(
                *old(self),
                postings,
                entry@.date,
                *today,
                blankv,
                acc@,
            );
        }
        Ok(())
    }
}

/// When every accumulator entry passed its range checks, the whole
/// per-currency condition of `account_entry_ok` holds: currencies
/// outside the accumulator contribute nothing.
proof fn lemma_account_entry_ok_at_end(
    a0: Account,
    postings: Seq<PostingView>,
    date: Date,
    today: Date,
    blankv: Option<AmountView>,
    acc: Seq<(Amount, i128)>,
)
    requires
        acc_wf(acc),
        blankv == blank_value(postings),
        forall|j: int|
            0 <= j < a0.envelopes@.len() ==> crate::envelope::env_entry_ok(
                #[trigger] a0.envelopes@[j],
                postings,
                date,
                today,
            ),
        has_blank(postings) ==> blank_outcome(postings) is Some,
        forall|s: Option<Seq<char>>|
            acc_total_from(acc, s, 0) == real_contrib_sum(postings, 0, blankv, a0.name@, s),
        forall|u: int|
            0 <= u < acc.len() ==> (i64::MIN <= (#[trigger] acc[u]).1 <= i64::MAX && i64::MIN
                <= spec_only(a0.real_value@, spec_symbol(acc[u].0.symbol)) + acc[u].1 <= i64::MAX),
    ensures
        account_entry_ok(a0, postings, date, today),
{
    assert forall|s: Option<Seq<char>>|
        #![trigger real_contrib_sum(postings, 0, blank_value(postings), a0.name@, s)]
        ({
            let c = real_contrib_sum(postings, 0, blank_value(postings), a0.name@, s);
            &&& i64::MIN <= c <= i64::MAX
            &&& i64::MIN <= spec_only(a0.real_value@, s) + c <= i64::MAX
        }) by {
        if exists|u: int| 0 <= u < acc.len() && spec_symbol(acc[u].0.symbol) == s {
            let u = choose|u: int| 0 <= u < acc.len() && spec_symbol(acc[u].0.symbol) == s;
            assert forall|j: int| 0 <= j < u implies spec_symbol(acc[j].0.symbol) != s by {}
            lemma_acc_match(acc, s, 0, u);
        } else {
            lemma_acc_no_match(acc, s, 0);
            crate::amount::lemma_only_in_range(a0.real_value@, s, 0);
        }
    }
}

impl Account {
    /// Sorts envelopes by due date and then returns postings that will
    /// fill (or drain) them as needed: exactly the postings of the fill
    /// walk. Envelopes are visited in order of their next due date, the
    /// ones without a date last and ties kept in their original order;
    /// for each currency of the available value, an overdrawn balance
    /// drains the latest-due envelopes first, a positive one fills the
    /// soonest-due first, and the running available value shrinks by
    /// every posting made, so the same money is never given out twice.
    /// Postings that would move nothing are left out. A failure comes
    /// only from the available value or a walk step leaving what the
    /// magnitude's machine type can count.
    pub fn get_filling_postings(&self, today: &Date) -> (r: Result<Vec<Posting>, ProcessingError>)
        requires
            self.wf(),
            today.is_valid(),
        ensures
            r matches Ok(ps) ==> forall|j: int|
                0 <= j < ps@.len() ==> ((#[trigger] ps@[j])@ matches PostingView::Envelope(e)
                    && e.amount.mag != 0),
            r matches Ok(ps) ==> fill_outcome_matches(
                *self,
                *today,
                fill_views(ps@.map_values(|p: Posting| p@)),
                true,
            ),
            r is Err ==> (!available_fits(self.real_value@, self.envelopes@) || exists|
                out: Seq<FillView>,
            | #[trigger] fill_outcome_matches(*self, *today, out, false)),
            (available_fits(self.real_value@, self.envelopes@) && (forall|w: WalkWitness|
                #[trigger] walk_witness_ok(*self, *today, w) ==> walk_of(
                    *self,
                    *today,
                    w,
                ).fits)) ==> r is Ok,
    {
        let n = self.envelopes.len();
        // The due-date key of each envelope: envelopes without a due
        // date sort after every dated one.
        let mut keys: Vec<u64> = Vec::new();
        let ghost mut dues: Seq<Option<Date>> = Seq::empty();
        let mut i: usize = 0;
        while i < n
            invariant
                0 <= i <= n,
                n == self.envelopes@.len(),
                keys@.len() == i,
                dues.len() == i,
                self.wf(),
                today.is_valid(),
                forall|j: int|
                    0 <= j < i ==> crate::envelope::env_next_due_matches(
                        #[trigger] self.envelopes@[j],
                        *today,
                        dues[j],
                    ),
                forall|j: int| 0 <= j < i ==> keys@[j] == due_key(dues[j]),
            decreases n - i,
        {
            let nd = self.envelopes[i].get_next_due_date(today);
            let key: u64 = match &nd {
                Some(d) => d.day_number() as u64,
                None => 0xffffffffffffffffu64,
            };
            keys.push(key);
            proof {
                dues = dues.push(nd);
            }
            i = i + 1;
        }
        // A stable order of the envelopes by key.
        let order = stable_order_by_keys(&keys);
        proof {
            assert(order@.len() == n);
            assert forall|j: int| 0 <= j < order@.len() implies (#[trigger] order@[j]) < n by {
                assert(order_views(order@)[j] == order@[j] as int);
            }
            assert(keys@ =~= due_keys(dues));
        }
        // The walk starts from the account's available value.
        let mut running = match self.get_available_value() {
            Ok(p) => p,
            Err(e) => {
                return Err(e);
            },
        };
        let ghost pool0 = running@;
        let ghost ov = order_views(order@);
        let ghost w = WalkWitness { pool0, dues, order: ov };
        proof {
            assert(walk_witness_ok(*self, *today, w));
        }
        let dirs: Vec<i64> = pool_mags(&running);
        // One pass per currency of the starting pool: reversed order
        // when that currency is overdrawn, forward when positive.
        let mut visits: Vec<usize> = Vec::new();
        let mut t: usize = 0;
        while t < dirs.len()
            invariant
                0 <= t <= dirs@.len(),
                dirs@.len() == pool0.len(),
                forall|k: int| 0 <= k < dirs@.len() ==> dirs@[k] == pool0[k].mag,
                n == self.envelopes@.len(),
                order@.len() == n,
                ov == order_views(order@),
                forall|j: int| 0 <= j < order@.len() ==> (#[trigger] order@[j]) < n,
                forall|k: int| 0 <= k < visits@.len() ==> (#[trigger] visits@[k]) < n,
                order_views(visits@) + all_visits(pool0, ov, t as int) =~= all_visits(
                    pool0,
                    ov,
                    0,
                ),
            decreases dirs@.len() - t,
        {
            let ghost before_vis = order_views(visits@);
            let dir = dirs[t];
            if dir < 0 {
                let mut u: usize = n;
                while u > 0
                    invariant
                        0 <= u <= n,
                        n == self.envelopes@.len(),
                        order@.len() == n,
                        ov == order_views(order@),
                        forall|j: int| 0 <= j < order@.len() ==> (#[trigger] order@[j]) < n,
                        forall|k: int| 0 <= k < visits@.len() ==> (#[trigger] visits@[k]) < n,
                        order_views(visits@) =~= before_vis + ov.reverse().take((n - u) as int),
                    decreases u,
                {
                    u = u - 1;
                    let ghost before_step = order_views(visits@);
                    visits.push(order[u]);
                    proof {
                        assert(ov.reverse()[(n - 1 - u) as int] == ov[u as int]);
                        assert(order_views(visits@) =~= before_step.push(ov[u as int]));
                        assert(order_views(visits@) =~= before_vis + ov.reverse().take(
                            (n - u) as int,
                        ));
                    }
                }
                proof {
                    assert(ov.reverse().take(n as int) =~= ov.reverse());
                    assert(pass_visits(pool0[t as int].mag as int, ov) == ov.reverse());
                }
            } else if dir > 0 {
                let mut u: usize = 0;
                while u < n
                    invariant
                        0 <= u <= n,
                        n == self.envelopes@.len(),
                        order@.len() == n,
                        ov == order_views(order@),
                        forall|j: int| 0 <= j < order@.len() ==> (#[trigger] order@[j]) < n,
                        forall|k: int| 0 <= k < visits@.len() ==> (#[trigger] visits@[k]) < n,
                        order_views(visits@) =~= before_vis + ov.take(u as int),
                    decreases n - u,
                {
                    let ghost before_step = order_views(visits@);
                    visits.push(order[u]);
                    proof {
                        assert(order_views(visits@) =~= before_step.push(ov[u as int]));
                        assert(order_views(visits@) =~= before_vis + ov.take(u as int + 1));
                    }
                    u = u + 1;
                }
                proof {
                    assert(ov.take(n as int) =~= ov);
                    assert(pass_visits(pool0[t as int].mag as int, ov) == ov);
                }
            } else {
                proof {
                    assert(pass_visits(pool0[t as int].mag as int, ov) =~= Seq::<int>::empty());
                    assert(order_views(visits@) =~= before_vis + pass_visits(
                        pool0[t as int].mag as int,
                        ov,
                    ));
                }
            }
            proof {
                assert(order_views(visits@) + all_visits(pool0, ov, t as int + 1) =~= all_visits(
                    pool0,
                    ov,
                    0,
                ));
            }
            t = t + 1;
        }
        proof {
            assert(all_visits(pool0, ov, pool0.len() as int) =~= Seq::<int>::empty());
            assert(order_views(visits@) =~= all_visits(pool0, ov, 0));
        }
        // The walk itself, against a running copy of the pool.
        let ghost vs = order_views(visits@);
        let ghost init = WalkState {
            avail: pool_values(pool0),
            out: Seq::<FillView>::empty(),
            fits: true,
        };
        let ghost mut st = init;
        let mut postings: Vec<Posting> = Vec::new();
        let nv = visits.len();
        let mut v: usize = 0;
        while v < nv
            invariant
                0 <= v <= nv,
                nv == visits@.len(),
                vs == order_views(visits@),
                vs == all_visits(pool0, w.order, 0),
                w == (WalkWitness { pool0, dues, order: ov }),
                init == (WalkState {
                    avail: pool_values(pool0),
                    out: Seq::<FillView>::empty(),
                    fits: true,
                }),
                walk_witness_ok(*self, *today, w),
                forall|k: int| 0 <= k < visits@.len() ==> (#[trigger] visits@[k]) < n,
                n == self.envelopes@.len(),
                dues.len() == n,
                self.wf(),
                today.is_valid(),
                running.wf(),
                forall|j: int|
                    0 <= j < n ==> crate::envelope::env_next_due_matches(
                        #[trigger] self.envelopes@[j],
                        *today,
                        dues[j],
                    ),
                st.fits,
                forall|s: Option<Seq<char>>| spec_only(running@, s) == st.avail[s],
                st.out =~= fill_views(postings@.map_values(|p: Posting| p@)),
                walk_from(self.envelopes@, dues, vs, 0, *today, init) == walk_from(
                    self.envelopes@,
                    dues,
                    vs,
                    v as int,
                    *today,
                    st,
                ),
                forall|j: int|
                    0 <= j < postings@.len() ==> ((#[trigger] postings@[j])@ matches PostingView::Envelope(e)
                        && e.amount.mag != 0),
            decreases nv - v,
        {
            let j = visits[v];
            let ghost env_g = self.envelopes@[j as int];
            let ghost sym = spec_symbol(env_g.amount.symbol);
            let ghost st_next = fill_step(env_g, dues[j as int], *today, st);
            proof {
                assert(vs[v as int] == j as int);
                assert(crate::envelope::env_next_due_matches(env_g, *today, dues[j as int]));
                assert(walk_from(self.envelopes@, dues, vs, v as int, *today, st) == walk_from(
                    self.envelopes@,
                    dues,
                    vs,
                    v as int + 1,
                    *today,
                    st_next,
                ));
                assert(walk_of(*self, *today, w) == walk_from(
                    self.envelopes@,
                    dues,
                    vs,
                    0,
                    *today,
                    init,
                ));
            }
            let posting = match self.envelopes[j].get_filling_posting(&running, today) {
                Ok(p) => p,
                Err(e) => {
                    proof {
                        assert(!st_next.fits);
                        lemma_walk_keeps_unfit(
                            self.envelopes@,
                            dues,
                            vs,
                            v as int + 1,
                            *today,
                            st_next,
                        );
                        assert(!walk_of(*self, *today, w).fits);
                        assert(fill_outcome_matches(
                            *self,
                            *today,
                            walk_of(*self, *today, w).out,
                            false,
                        ));
                    }
                    return Err(e);
                },
            };
            if posting.get_amount().mag != 0 {
                match running.subtract(posting.get_amount()) {
                    Ok(()) => {},
                    Err(e) => {
                        proof {
                            assert(!st_next.fits);
                            lemma_walk_keeps_unfit(
                                self.envelopes@,
                                dues,
                                vs,
                                v as int + 1,
                                *today,
                                st_next,
                            );
                            assert(!walk_of(*self, *today, w).fits);
                            assert(fill_outcome_matches(
                                *self,
                                *today,
                                walk_of(*self, *today, w).out,
                                false,
                            ));
                        }
                        return Err(e);
                    },
                }
                let ghost before_ps = postings@;
                postings.push(Posting::Envelope(posting));
                proof {
                    st = st_next;
                    assert forall|s: Option<Seq<char>>| spec_only(running@, s)
                        == st.avail[s] by {}
                    assert(st.out =~= fill_views(postings@.map_values(|p: Posting| p@)));
                }
            } else {
                proof {
                    assert(st_next == st);
                    st = st_next;
                }
            }
            v = v + 1;
        }
        proof {
            assert(walk_from(self.envelopes@, dues, vs, nv as int, *today, st) == st);
            assert(walk_of(*self, *today, w) == walk_from(
                self.envelopes@,
                dues,
                vs,
                0,
                *today,
                init,
            ));
            assert(walk_of(*self, *today, w) == st);
            assert(fill_outcome_matches(
                *self,
                *today,
                fill_views(postings@.map_values(|p: Posting| p@)),
                true,
            ));
        }
        Ok(postings)
    }
}

/// One filling posting as a plain value: whose envelope it addresses
/// and what it moves.
pub struct FillView {
    /// The account the envelope belongs to.
    pub account: Seq<char>,
    /// The envelope's name.
    pub envelope: Seq<char>,
    /// The currency moved.
    pub symbol: Option<Seq<char>>,
    /// The magnitude moved: positive fills, negative drains.
    pub mag: int,
}

/// The running state of a fill walk: the available value left per
/// currency, the postings made so far, and whether every step so far
/// stayed within the magnitude's machine type.
pub struct WalkState {
    /// What is still available, per currency.
    pub avail: Map<Option<Seq<char>>, int>,
    /// The postings made, in order.
    pub out: Seq<FillView>,
    /// True while no step has left the machine type.
    pub fits: bool,
}

/// A pool as the total map from each symbol to the value it holds.
pub open spec fn pool_values(p: Seq<Amount>) -> Map<Option<Seq<char>>, int> {
    Map::new(|s: Option<Seq<char>>| true, |s: Option<Seq<char>>| spec_only(p, s))
}

/// One step of the fill walk: the envelope's fill for what is still
/// available in its currency; a posting that moves something is
/// recorded and taken out of the running value.
pub open spec fn fill_step(env: Envelope, due: Option<Date>, today: Date, st: WalkState) -> WalkState {
    let sym = spec_symbol(env.amount.symbol);
    let avail_s = st.avail[sym];
    let mag = crate::envelope::spec_filling_mag(
        env.amount.mag as int,
        env.now_amount.mag as int,
        env.next_amount.mag as int,
        env.funding,
        env.last_transaction_date,
        today,
        due,
        avail_s,
    );
    let ok_step = i64::MIN <= mag <= i64::MAX && (mag == 0 || i64::MIN <= avail_s - mag
        <= i64::MAX);
    if mag == 0 {
        WalkState { avail: st.avail, out: st.out, fits: st.fits && ok_step }
    } else {
        WalkState {
            avail: st.avail.insert(sym, avail_s - mag),
            out: st.out.push(
                FillView {
                    account: env.parent_account@,
                    envelope: env.name@,
                    symbol: sym,
                    mag,
                },
            ),
            fits: st.fits && ok_step,
        }
    }
}

/// The fill walk over the envelopes that `visits` names, from position
/// `v` on, with the due date of each envelope supplied alongside.
pub open spec fn walk_from(
    envs: Seq<Envelope>,
    dues: Seq<Option<Date>>,
    visits: Seq<int>,
    v: int,
    today: Date,
    st: WalkState,
) -> WalkState
    decreases visits.len() - v when 0 <= v <= visits.len()
{
    if v >= visits.len() {
        st
    } else {
        let j = visits[v];
        if 0 <= j < envs.len() && envs.len() == dues.len() {
            walk_from(envs, dues, visits, v + 1, today, fill_step(envs[j], dues[j], today, st))
        } else {
            walk_from(envs, dues, visits, v + 1, today, st)
        }
    }
}

/// Once a walk step has left the machine type, the whole walk has.
proof fn lemma_walk_keeps_unfit(
    envs: Seq<Envelope>,
    dues: Seq<Option<Date>>,
    visits: Seq<int>,
    v: int,
    today: Date,
    st: WalkState,
)
    requires
        0 <= v <= visits.len(),
        !st.fits,
    ensures
        !walk_from(envs, dues, visits, v, today, st).fits,
    decreases visits.len() - v,
{
    if v < visits.len() {
        let j = visits[v];
        if 0 <= j < envs.len() && envs.len() == dues.len() {
            lemma_walk_keeps_unfit(
                envs,
                dues,
                visits,
                v + 1,
                today,
                fill_step(envs[j], dues[j], today, st),
            );
        } else {
            lemma_walk_keeps_unfit(envs, dues, visits, v + 1, today, st);
        }
    }
}

/// The envelopes one currency's pass visits: the walk order reversed
/// for an overdrawn currency, forward for a positive one, and nothing
/// for a zero one.
pub open spec fn pass_visits(mag0: int, order: Seq<int>) -> Seq<int> {
    if mag0 < 0 {
        order.reverse()
    } else if mag0 > 0 {
        order
    } else {
        Seq::empty()
    }
}

/// The whole walk's visits: one pass per entry of the starting
/// available pool, from entry `t` on.
pub open spec fn all_visits(pool0: Seq<Amount>, order: Seq<int>, t: int) -> Seq<int>
    decreases pool0.len() - t when 0 <= t <= pool0.len()
{
    if t >= pool0.len() {
        Seq::empty()
    } else {
        pass_visits(pool0[t].mag as int, order) + all_visits(pool0, order, t + 1)
    }
}

/// The due-date key an envelope sorts by: its next due date's day
/// index, envelopes without one after every dated one.
pub open spec fn due_key(nd: Option<Date>) -> u64 {
    match nd {
        Some(d) => d.index() as u64,
        None => 0xffffffffffffffffu64,
    }
}

/// The due-date keys of a sequence of due dates.
pub open spec fn due_keys(dues: Seq<Option<Date>>) -> Seq<u64> {
    Seq::new(dues.len(), |j: int| due_key(dues[j]))
}

/// The witness of one fill walk: the available pool it starts from,
/// the next due date it reads for each envelope, and the stable
/// due-date order it visits them in.
pub struct WalkWitness {
    /// The starting available pool.
    pub pool0: Seq<Amount>,
    /// Each envelope's next due date.
    pub dues: Seq<Option<Date>>,
    /// The positions of the envelopes, ordered by due date.
    pub order: Seq<int>,
}

/// True where the witness is the account's own: the pool holds the
/// account's available value, each due date is the envelope's, and the
/// order is the stable due-date order.
pub open spec fn walk_witness_ok(a: Account, today: Date, w: WalkWitness) -> bool {
    &&& pool_wf(w.pool0)
    &&& forall|s: Option<Seq<char>>|
        spec_only(w.pool0, s) == spec_only(a.real_value@, s) - earmarked_from(a.envelopes@, 0, s)
    &&& w.dues.len() == a.envelopes@.len()
    &&& forall|j: int|
        0 <= j < a.envelopes@.len() ==> crate::envelope::env_next_due_matches(
            #[trigger] a.envelopes@[j],
            today,
            w.dues[j],
        )
    &&& stable_order_ok(w.order, due_keys(w.dues))
}

/// The whole fill walk a witness describes, from an untouched pool.
pub open spec fn walk_of(a: Account, today: Date, w: WalkWitness) -> WalkState {
    walk_from(
        a.envelopes@,
        w.dues,
        all_visits(w.pool0, w.order, 0),
        0,
        today,
        WalkState { avail: pool_values(w.pool0), out: Seq::empty(), fits: true },
    )
}

/// True where `out` is what the account's fill walk produces (and
/// `fits` whether it stayed within the machine type): the walk over
/// the account's own available pool, due dates and stable order.
pub open spec fn fill_outcome_matches(a: Account, today: Date, out: Seq<FillView>, fits: bool) -> bool {
    exists|w: WalkWitness|
        #[trigger] walk_witness_ok(a, today, w) && walk_of(a, today, w).out == out && walk_of(
            a,
            today,
            w,
        ).fits == fits
}

/// The postings of a fill walk as plain values; a classic posting,
/// which no fill walk yields, reads as an empty movement.
pub open spec fn fill_views(ps: Seq<PostingView>) -> Seq<FillView> {
    Seq::new(
        ps.len(),
        |j: int|
            match ps[j] {
                PostingView::Envelope(e) => FillView {
                    account: e.account_name,
                    envelope: e.envelope_name,
                    symbol: e.amount.symbol,
                    mag: e.amount.mag,
                },
                PostingView::Classic(c) => FillView {
                    account: c.account,
                    envelope: Seq::empty(),
                    symbol: None,
                    mag: 0,
                },
            },
    )
}

/// True where `order` walks `0` through `keys.len() - 1` once each,
/// from the smallest key to the largest, ties kept in their original
/// order.
pub open spec fn stable_order_ok(order: Seq<int>, keys: Seq<u64>) -> bool {
    &&& order.len() == keys.len()
    &&& forall|j: int| 0 <= j < order.len() ==> 0 <= #[trigger] order[j] < keys.len()
    &&& forall|v: int| 0 <= v < keys.len() ==> order.contains(v)
    &&& forall|a: int, b: int|
        0 <= a < b < order.len() ==> (keys[order[a]] < keys[order[b]] || (keys[order[a]]
            == keys[order[b]] && order[a] < order[b]))
}

/// A walk's positions as plain integers.
pub open spec fn order_views(order: Seq<usize>) -> Seq<int> {
    order.map_values(|u: usize| u as int)
}

/// The positions `0` through `keys.len() - 1` arranged from the
/// smallest key to the largest, ties kept in their original order:
/// each position is placed after every earlier one whose key is not
/// larger.
fn stable_order_by_keys(keys: &Vec<u64>) -> (order: Vec<usize>)
    ensures
        stable_order_ok(order_views(order@), keys@),
        order@.len() == keys@.len(),
{
    let n = keys.len();
    let mut order: Vec<usize> = Vec::new();
    let mut i: usize = 0;
    while i < n
        invariant
            0 <= i <= n,
            n == keys@.len(),
            order@.len() == i,
            forall|j: int| 0 <= j < order@.len() ==> (#[trigger] order@[j]) < i,
            forall|v: int| 0 <= v < i ==> #[trigger] order_views(order@).contains(v),
            forall|a: int, b: int|
                0 <= a < b < order@.len() ==> (keys@[order@[a] as int] < keys@[order@[b] as int]
                    || (keys@[order@[a] as int] == keys@[order@[b] as int] && order@[a]
                    < order@[b])),
        decreases n - i,
    {
        let key = keys[i];
        let mut pos: usize = order.len();
        while pos > 0
            invariant
                0 <= pos <= order@.len(),
                order@.len() == i <= n,
                n == keys@.len(),
                forall|j: int| 0 <= j < order@.len() ==> (#[trigger] order@[j]) < i,
                forall|j: int|
                    pos <= j < order@.len() ==> keys@[(#[trigger] order@[j]) as int] > key,
            ensures
                0 <= pos <= order@.len(),
                pos > 0 ==> keys@[order@[pos - 1] as int] <= key,
                forall|j: int|
                    pos <= j < order@.len() ==> keys@[(#[trigger] order@[j]) as int] > key,
            decreases pos,
        {
            if keys[order[pos - 1]] <= key {
                break ;
            }
            pos = pos - 1;
        }
        let ghost before = order@;
        order.insert(pos, i);
        proof {
            let ghost now = order@;
            assert forall|a: int, b: int|
                0 <= a < b < now.len() implies (keys@[now[a] as int] < keys@[now[b] as int] || (
            keys@[now[a] as int] == keys@[now[b] as int] && now[a] < now[b])) by {
                if b < pos as int {
                    assert(now[a] == before[a]);
                    assert(now[b] == before[b]);
                } else if b == pos as int {
                    assert(now[a] == before[a]);
                    assert(now[b] == i);
                    if pos > 0 {
                        // The element just before the insertion point
                        // has a key at most `key`, and earlier ones are
                        // no larger than it or stand earlier.
                        assert(keys@[before[pos - 1] as int] <= key);
                        if a < pos as int - 1 {
                            assert(keys@[before[a] as int] <= keys@[before[pos - 1] as int]);
                        }
                    }
                } else {
                    assert(now[b] == before[b - 1]);
                    if a < pos as int {
                        assert(now[a] == before[a]);
                    } else if a == pos as int {
                        assert(now[a] == i);
                        assert(keys@[before[b - 1] as int] > key);
                    } else {
                        assert(now[a] == before[a - 1]);
                    }
                }
            }
            assert forall|v: int| 0 <= v < i + 1 implies #[trigger] order_views(
                now,
            ).contains(v) by {
                let mapped = order_views(now);
                if v == i as int {
                    assert(mapped[pos as int] == v);
                } else {
                    let old_mapped = order_views(before);
                    assert(old_mapped.contains(v));
                    let j = choose|j: int| 0 <= j < old_mapped.len() && old_mapped[j] == v;
                    if j < pos as int {
                        assert(mapped[j] == v);
                    } else {
                        assert(mapped[j + 1] == v);
                    }
                }
            }
        }
        i = i + 1;
    }
    proof {
        assert(stable_order_ok(order_views(order@), keys@));
    }
    order
}

/// The magnitudes of the pool's entries, in pool order.
fn pool_mags(pool: &AmountPool) -> (r: Vec<i64>)
    ensures
        r@.len() == pool@.len(),
        forall|k: int| 0 <= k < pool@.len() ==> r@[k] == (#[trigger] pool@[k]).mag,
{
    let entries = pool.amounts();
    let n = entries.len();
    let mut r: Vec<i64> = Vec::new();
    let mut i: usize = 0;
    while i < n
        invariant
            0 <= i <= n,
            n == entries@.len(),
            pool@.len() == n,
            entries@ == pool@,
            r@.len() == i,
            forall|k: int| 0 <= k < i ==> r@[k] == (#[trigger] pool@[k]).mag,
        decreases n - i,
    {
        r.push(entries[i].mag);
        i = i + 1;
    }
    r
}

/// The entry at position `t` of a well-formed accumulator is the first
/// of its symbol, so the accumulator's total for that symbol from `t`
/// is its own and from `t + 1` is zero.
proof fn lemma_acc_at(acc: Seq<(Amount, i128)>, t: int)
    requires
        acc_wf(acc),
        0 <= t < acc.len(),
    ensures
        acc_total_from(acc, spec_symbol(acc[t].0.symbol), t) == acc[t].1,
        acc_total_from(acc, spec_symbol(acc[t].0.symbol), t + 1) == 0,
        forall|s: Option<Seq<char>>|
            s != spec_symbol(acc[t].0.symbol) ==> acc_total_from(acc, s, t) == acc_total_from(
                acc,
                s,
                t + 1,
            ),
{
    lemma_acc_no_match(acc, spec_symbol(acc[t].0.symbol), t + 1);
}

} // verus!
