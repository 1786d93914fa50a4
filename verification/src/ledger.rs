//! The ledger: accounts by name and a chronological list of entries.
//!
//! A [`Ledger`] applies each new entry to every account and keeps the
//! entries sorted by date, each processed exactly once. It also
//! assembles the one automatically generated entry that moves money
//! into or out of envelopes, for the caller to persist and then apply
//! like any other entry.

use crate::account::Account;
use crate::account::FillView;
use crate::account::account_processed;
use crate::account::available_fits;
use crate::account::fill_outcome_matches;
use crate::account::fill_views;
use crate::date::Date;
use crate::entry::Entry;
use crate::entry::EntryStatus;
use crate::errors::SilverfoxError;
use crate::posting::Posting;
use crate::posting::PostingView;
use vstd::prelude::*;

verus! {

/// A span of time a register display can be grouped by.
#[derive(Clone, Copy, Debug, PartialEq, Eq, Structural)]
pub enum Period {
    Yearly,
    Monthly,
    Weekly,
    Daily,
}

/// The ledger: accounts unique by name, and entries in date order.
#[derive(Debug)]
pub struct Ledger {
    /// The accounts, unique by name.
    pub accounts: Vec<Account>,
    /// The entries, sorted by date, oldest first.
    pub entries: Vec<Entry>,
}

/// The number of entries from `k` on whose date lies at or before `d`:
/// in a sorted ledger, where a new entry of date `d` belongs.
pub open spec fn count_dates_le(entries: Seq<Entry>, k: int, d: Date) -> int
    decreases entries.len() - k when 0 <= k <= entries.len()
{
    if k >= entries.len() {
        0
    } else {
        (if entries[k].date.index() <= d.index() {
            1int
        } else {
            0int
        }) + count_dates_le(entries, k + 1, d)
    }
}

impl Ledger {
    /// The well-formedness every ledger keeps: well-formed accounts
    /// with pairwise distinct names, valid entry dates in order, and
    /// entries short enough to sum.
    pub open spec fn wf(self) -> bool {
        &&& forall|j: int| 0 <= j < self.accounts@.len() ==> (#[trigger] self.accounts@[j]).wf()
        &&& forall|i: int, j: int|
            0 <= i < j < self.accounts@.len() ==> self.accounts@[i].name@
                != self.accounts@[j].name@
        &&& forall|j: int|
            0 <= j < self.entries@.len() ==> (#[trigger] self.entries@[j]).date.is_valid()
        &&& forall|i: int, j: int|
            0 <= i < j < self.entries@.len() ==> self.entries@[i].date.index()
                <= self.entries@[j].date.index()
    }

    /// Returns a blank ledger.
    pub fn new() -> (l: Ledger)
        ensures
            l.accounts@.len() == 0,
            l.entries@.len() == 0,
            l.wf(),
    {
        Ledger { accounts: Vec::new(), entries: Vec::new() }
    }

    /// The ledger's accounts, in the order they were added.
    pub fn get_accounts(&self) -> (r: &Vec<Account>)
        ensures
            r == &self.accounts,
    {
        &self.accounts
    }

    /// The ledger's entries, sorted by date.
    pub fn get_entries(&self) -> (r: &Vec<Entry>)
        ensures
            r == &self.entries,
    {
        &self.entries
    }

    /// Adds an account, replacing the account of the same name where
    /// the ledger has one, and appending it otherwise.
    pub fn add_account(&mut self, account: Account) -> (replaced: bool)
        requires
            old(self).wf(),
            account.wf(),
        ensures
            final(self).wf(),
            final(self).entries == old(self).entries,
            replaced == exists|j: int|
                0 <= j < old(self).accounts@.len() && (#[trigger] old(self).accounts@[j]).name@
                    == account.name@,
            replaced ==> exists|j: int|
                0 <= j < old(self).accounts@.len() && (#[trigger] old(self).accounts@[j]).name@
                    == account.name@ && final(self).accounts@ == old(self).accounts@.update(
                    j,
                    account,
                ),
            !replaced ==> final(self).accounts@ == old(self).accounts@.push(account),
    {
        let n = self.accounts.len();
        let mut i: usize = 0;
        while i < n
            invariant
                0 <= i <= n,
                n == self.accounts@.len(),
                *self == *old(self),
                old(self).wf(),
                account.wf(),
                forall|j: int| 0 <= j < i ==> self.accounts@[j].name@ != account.name@,
            decreases n - i,
        {
            if crate::utils::str_eq(self.accounts[i].get_name(), account.name.as_str()) {
                let ghost before = self.accounts@;
                let _ = self.accounts.remove(i);
                self.accounts.insert(i, account);
                proof {
                    assert(self.accounts@ =~= before.update(i as int, account));
                    assert forall|a: int, b: int|
                        0 <= a < b < self.accounts@.len() implies self.accounts@[a].name@
                        != self.accounts@[b].name@ by {
                        assert(self.accounts@[a].name@ == old(self).accounts@[a].name@);
                        assert(self.accounts@[b].name@ == old(self).accounts@[b].name@);
                    }
                }
                return true;
            }
            i = i + 1;
        }
        self.accounts.push(account);
        false
    }

    /// The account of the given name, where the ledger has one.
    pub fn get_account(&self, name: &str) -> (r: Option<&Account>)
        ensures
            r matches Some(a) ==> exists|j: int|
                0 <= j < self.accounts@.len() && self.accounts@[j] == *a && a.name@ == name@,
            r is None ==> forall|j: int|
                0 <= j < self.accounts@.len() ==> (#[trigger] self.accounts@[j]).name@ != name@,
    {
        let n = self.accounts.len();
        let mut i: usize = 0;
        while i < n
            invariant
                0 <= i <= n,
                n == self.accounts@.len(),
                forall|j: int| 0 <= j < i ==> (#[trigger] self.accounts@[j]).name@ != name@,
            decreases n - i,
        {
            if crate::utils::str_eq(self.accounts[i].get_name(), name) {
                return Some(&self.accounts[i]);
            }
            i = i + 1;
        }
        None
    }

    /// Adds an entry to the ledger: every account processes it, then it
    /// takes its place in date order, after the entries of its own
    /// date. Note that this does not affect any saved file.
    pub fn add_entry(&mut self, entry: Entry, today: &Date) -> (r: Result<(), SilverfoxError>)
        requires
            old(self).wf(),
            today.is_valid(),
            entry.date.is_valid(),
            entry@.postings.len() <= 1000000000,
        ensures
            final(self).wf(),
            final(self).accounts@.len() == old(self).accounts@.len(),
            r is Ok ==> forall|j: int|
                0 <= j < old(self).accounts@.len() ==> account_processed(
                    old(self).accounts@[j],
                    #[trigger] final(self).accounts@[j],
                    entry@.postings,
                    entry@.date,
                    *today,
                ),
            r is Ok ==> ({
                let pos = count_dates_le(old(self).entries@, 0, entry.date);
                &&& 0 <= pos <= old(self).entries@.len()
                &&& final(self).entries@ == old(self).entries@.insert(pos, entry)
            }),
            r is Err ==> final(self).entries == old(self).entries,
            r is Ok <==> forall|j: int|
                0 <= j < old(self).accounts@.len() ==> crate::account::account_entry_ok(
                    #[trigger] old(self).accounts@[j],
                    entry@.postings,
                    entry@.date,
                    *today,
                ),
    {
        let n = self.accounts.len();
        let mut i: usize = 0;
        while i < n
            invariant
                0 <= i <= n,
                n == self.accounts@.len(),
                n == old(self).accounts@.len(),
                self.entries == old(self).entries,
                old(self).wf(),
                today.is_valid(),
                entry.date.is_valid(),
                entry@.postings.len() <= 1000000000,
                forall|j: int| i <= j < n ==> self.accounts@[j] == old(self).accounts@[j],
                forall|j: int|
                    0 <= j < i ==> account_processed(
                        old(self).accounts@[j],
                        #[trigger] self.accounts@[j],
                        entry@.postings,
                        entry@.date,
                        *today,
                    ),
                forall|j: int|
                    0 <= j < i ==> crate::account::account_entry_ok(
                        #[trigger] old(self).accounts@[j],
                        entry@.postings,
                        entry@.date,
                        *today,
                    ),
                forall|j: int| 0 <= j < n ==> (#[trigger] self.accounts@[j]).wf(),
                forall|j: int| 0 <= j < n ==> (#[trigger] self.accounts@[j]).name@ == old(
                    self,
                ).accounts@[j].name@,
            decreases n - i,
        {
            let ghost pre_account = self.accounts@[i as int];
            let mut a = self.accounts.remove(i);
            let outcome = a.process_entry(&entry, today);
            self.accounts.insert(i, a);
            match outcome {
                Ok(()) => {},
                Err(e) => {
                    proof {
                        assert(pre_account == old(self).accounts@[i as int]);
                        assert(!crate::account::account_entry_ok(
                            old(self).accounts@[i as int],
                            entry@.postings,
                            entry@.date,
                            *today,
                        ));
                        assert forall|x: int, y: int|
                            0 <= x < y < n implies self.accounts@[x].name@
                            != self.accounts@[y].name@ by {
                            assert(self.accounts@[x].name@ == old(self).accounts@[x].name@);
                            assert(self.accounts@[y].name@ == old(self).accounts@[y].name@);
                        }
                    }
                    return Err(SilverfoxError::Processing(e));
                },
            }
            i = i + 1;
        }
        proof {
            assert forall|x: int, y: int|
                0 <= x < y < n implies self.accounts@[x].name@ != self.accounts@[y].name@ by {
                assert(self.accounts@[x].name@ == old(self).accounts@[x].name@);
                assert(self.accounts@[y].name@ == old(self).accounts@[y].name@);
            }
        }
        // Insert after every entry dated at or before this one.
        let m = self.entries.len();
        let mut pos: usize = 0;
        let d = entry.get_date().day_number();
        while pos < m
            invariant
                0 <= pos <= m,
                m == self.entries@.len(),
                self.entries == old(self).entries,
                old(self).wf(),
                entry.date.is_valid(),
                d == entry.date.index(),
                forall|j: int|
                    0 <= j < pos ==> (#[trigger] self.entries@[j]).date.index()
                        <= entry.date.index(),
                count_dates_le(self.entries@, 0, entry.date) == pos + count_dates_le(
                    self.entries@,
                    pos as int,
                    entry.date,
                ),
            ensures
                0 <= pos <= m,
                m == self.entries@.len(),
                self.entries == old(self).entries,
                forall|j: int|
                    0 <= j < pos ==> (#[trigger] self.entries@[j]).date.index()
                        <= entry.date.index(),
                count_dates_le(self.entries@, 0, entry.date) == pos + count_dates_le(
                    self.entries@,
                    pos as int,
                    entry.date,
                ),
                pos < m ==> self.entries@[pos as int].date.index() > entry.date.index(),
            decreases m - pos,
        {
            if self.entries[pos].get_date().day_number() > d {
                break ;
            }
            pos = pos + 1;
        }
        proof {
            lemma_count_none_le(self.entries@, pos as int, entry.date);
            assert(count_dates_le(self.entries@, 0, entry.date) == pos as int);
        }
        let ghost entries_before = self.entries@;
        self.entries.insert(pos, entry);
        proof {
            assert forall|x: int, y: int|
                0 <= x < y < self.entries@.len() implies self.entries@[x].date.index()
                <= self.entries@[y].date.index() by {
                if y < pos as int {
                    assert(self.entries@[x] == entries_before[x]);
                    assert(self.entries@[y] == entries_before[y]);
                } else if y == pos as int {
                    assert(self.entries@[x] == entries_before[x]);
                    assert(self.entries@[y] == entry);
                } else {
                    assert(self.entries@[y] == entries_before[y - 1]);
                    if x < pos as int {
                        assert(self.entries@[x] == entries_before[x]);
                        if (pos as int) < entries_before.len() {
                            assert(entries_before[x].date.index() <= entries_before[
                                pos as int].date.index());
                        }
                    } else if x == pos as int {
                        assert(self.entries@[x] == entry);
                        assert(entries_before[pos as int].date.index() > entry.date.index());
                        assert(entries_before[pos as int].date.index() <= entries_before[y
                            - 1].date.index());
                    } else {
                        assert(self.entries@[x] == entries_before[x - 1]);
                    }
                }
            }
        }
        Ok(())
    }
}

/// In a sorted entry list whose entry at `k` is dated after `d`, no
/// entry from `k` on is dated at or before `d`.
proof fn lemma_count_none_le(entries: Seq<Entry>, k: int, d: Date)
    requires
        0 <= k <= entries.len(),
        forall|i: int, j: int|
            0 <= i < j < entries.len() ==> entries[i].date.index() <= entries[j].date.index(),
        k < entries.len() ==> entries[k].date.index() > d.index(),
    ensures
        count_dates_le(entries, k, d) == 0,
    decreases entries.len() - k,
{
    if k < entries.len() {
        lemma_count_none_le(entries, k + 1, d);
    }
}

/// The accounts' filling postings, one sequence per account: each is
/// exactly what that account's fill walk produces, within the machine
/// type throughout.
pub open spec fn accounts_fill_match(accounts: Seq<Account>, today: Date, pss: Seq<Seq<FillView>>) -> bool {
    &&& pss.len() == accounts.len()
    &&& forall|j: int|
        0 <= j < accounts.len() ==> fill_outcome_matches(
            #[trigger] accounts[j],
            today,
            pss[j],
            true,
        )
}

/// The accounts' filling postings laid end to end, from account `k` on.
pub open spec fn concat_fills(pss: Seq<Seq<FillView>>, k: int) -> Seq<FillView>
    decreases pss.len() - k when 0 <= k <= pss.len()
{
    if k >= pss.len() {
        Seq::empty()
    } else {
        pss[k] + concat_fills(pss, k + 1)
    }
}

/// Appending one account's postings extends the concatenation at the end.
proof fn lemma_concat_fills_push(pss: Seq<Seq<FillView>>, fvs: Seq<FillView>, k: int)
    requires
        0 <= k <= pss.len(),
    ensures
        concat_fills(pss.push(fvs), k) =~= concat_fills(pss, k) + fvs,
    decreases pss.len() - k,
{
    if k < pss.len() {
        lemma_concat_fills_push(pss, fvs, k + 1);
        assert(concat_fills(pss.push(fvs), k) =~= concat_fills(pss, k) + fvs);
    } else {
        assert(concat_fills(pss.push(fvs), k + 1) =~= Seq::<FillView>::empty());
        assert(concat_fills(pss.push(fvs), k) =~= fvs);
        assert(concat_fills(pss, k) =~= Seq::<FillView>::empty());
    }
}

/// True where the account's fill walk cannot run to the end within the
/// machine type: what makes assembling the filling entry fail.
pub open spec fn account_fill_failed(a: Account, today: Date) -> bool {
    ||| !available_fits(a.real_value@, a.envelopes@)
    ||| exists|out: Seq<FillView>| #[trigger] fill_outcome_matches(a, today, out, false)
}

impl Ledger {
    /// Assembles the one automatically generated entry that moves money
    /// into or out of envelopes today: every account's filling postings,
    /// in account order, gathered into a single cleared entry — or
    /// `None` exactly where no account's walk moves anything. The
    /// caller persists it and then adds it like any other entry. A
    /// failure comes only from some account's walk leaving what the
    /// magnitude's machine type can count.
    pub fn make_filling_entry(&self, today: &Date) -> (r: Result<Option<Entry>, SilverfoxError>)
        requires
            self.wf(),
            today.is_valid(),
        ensures
            r matches Ok(o) ==> (o matches Some(e) ==> ({
                &&& e.date == *today
                &&& e.status is Cleared
                &&& e@.postings.len() > 0
                &&& forall|j: int|
                    0 <= j < e@.postings.len() ==> ((#[trigger] e@.postings[j])
                        matches PostingView::Envelope(ep) && ep.amount.mag != 0)
            })),
            r matches Ok(o) ==> exists|pss: Seq<Seq<FillView>>|
                #[trigger] accounts_fill_match(self.accounts@, *today, pss) && ({
                    let all = concat_fills(pss, 0);
                    &&& (o is None <==> all.len() == 0)
                    &&& (o matches Some(e) ==> fill_views(e@.postings) == all)
                }),
            r is Err ==> exists|j: int|
                0 <= j < self.accounts@.len() && account_fill_failed(
                    #[trigger] self.accounts@[j],
                    *today,
                ),
            (forall|j: int|
                0 <= j < self.accounts@.len() ==> !account_fill_failed(
                    #[trigger] self.accounts@[j],
                    *today,
                )) ==> r is Ok,
    {
        let n = self.accounts.len();
        let mut postings: Vec<Posting> = Vec::new();
        let ghost mut pss: Seq<Seq<FillView>> = Seq::empty();
        let mut i: usize = 0;
        while i < n
            invariant
                0 <= i <= n,
                n == self.accounts@.len(),
                self.wf(),
                today.is_valid(),
                pss.len() == i,
                forall|j: int|
                    0 <= j < i ==> fill_outcome_matches(
                        #[trigger] self.accounts@[j],
                        *today,
                        pss[j],
                        true,
                    ),
                fill_views(postings@.map_values(|p: Posting| p@)) =~= concat_fills(pss, 0),
                forall|j: int|
                    0 <= j < postings@.len() ==> ((#[trigger] postings@[j])@
                        matches PostingView::Envelope(ep) && ep.amount.mag != 0),
            decreases n - i,
        {
            let mut more = match self.accounts[i].get_filling_postings(today) {
                Ok(ps) => ps,
                Err(e) => {
                    proof {
                        assert(account_fill_failed(self.accounts@[i as int], *today));
                    }
                    return Err(SilverfoxError::Processing(e));
                },
            };
            let ghost before = postings@;
            let ghost added = more@;
            postings.append(&mut more);
            proof {
                assert(postings@ == before + added);
                let ghost fvs = fill_views(added.map_values(|p: Posting| p@));
                lemma_concat_fills_push(pss, fvs, 0);
                pss = pss.push(fvs);
                assert(fill_views(postings@.map_values(|p: Posting| p@)) =~= concat_fills(
                    pss,
                    0,
                ));
                assert forall|j: int|
                    0 <= j < postings@.len() implies ((#[trigger] postings@[j])@
                    matches PostingView::Envelope(ep) && ep.amount.mag != 0) by {
                    if j < before.len() {
                        assert(postings@[j] == before[j]);
                    } else {
                        assert(postings@[j] == added[j - before.len()]);
                    }
                }
            }
            i = i + 1;
        }
        proof {
            assert(accounts_fill_match(self.accounts@, *today, pss));
        }
        if postings.is_empty() {
            return Ok(None);
        }
        let entry = Entry::new(
            *today,
            EntryStatus::Cleared,
            "move to envelopes".to_owned(),
            None,
            postings,
            Some("automatically generated".to_owned()),
        );
        Ok(Some(entry))
    }
}

} // verus!
