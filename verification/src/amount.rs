//! The currency-safe value model.
//!
//! An [`Amount`] is a fixed-point magnitude tagged with an optional
//! currency symbol; the symbol-less form is the ledger's native
//! currency. Arithmetic between two amounts demands equal symbols and
//! reports mismatches and overflow as errors rather than aborting. An
//! [`AmountPool`] tracks one running amount per symbol; its behaviour is
//! specified through [`spec_only`], the running value it holds for each
//! symbol.

use crate::errors::ProcessingError;
use vstd::prelude::*;

verus! {

/// A monetary value: a fixed-point magnitude and an optional currency
/// symbol. Magnitudes are plain integers; what fraction of a currency
/// unit one step stands for is the caller's convention and never enters
/// the arithmetic.
#[derive(Clone, Debug, PartialEq, Eq)]
pub struct Amount {
    /// The magnitude, in fixed-point steps.
    pub mag: i64,
    /// The currency symbol; `None` is the native currency.
    pub symbol: Option<String>,
}

/// The symbol of an amount as a plain value: the character sequence of
/// the symbol, or `None` for the native currency.
pub open spec fn spec_symbol(s: Option<String>) -> Option<Seq<char>> {
    match s {
        Some(x) => Some(x@),
        None => None,
    }
}

/// An amount as a plain mathematical value: its magnitude as an integer
/// and its symbol as a character sequence.
pub struct AmountView {
    /// The magnitude.
    pub mag: int,
    /// The currency symbol's characters, or `None` for the native currency.
    pub symbol: Option<Seq<char>>,
}

impl View for Amount {
    type V = AmountView;

    open spec fn view(&self) -> AmountView {
        AmountView { mag: self.mag as int, symbol: spec_symbol(self.symbol) }
    }
}

/// Clones an optional currency symbol, keeping its characters.
pub fn clone_symbol(s: &Option<String>) -> (r: Option<String>)
    ensures
        spec_symbol(r) == spec_symbol(*s),
{
    match s {
        Some(x) => Some(x.clone()),
        None => None,
    }
}

/// Decides whether two optional symbols name the same currency.
pub fn symbols_match(a: &Option<String>, b: &Option<String>) -> (r: bool)
    ensures
        r == (spec_symbol(*a) == spec_symbol(*b)),
{
    match a {
        None => match b {
            None => true,
            Some(_) => false,
        },
        Some(x) => match b {
            None => false,
            Some(y) => {
                let eq = *x == *y;
                proof {
                    if x@ == y@ {
                        assert(spec_symbol(*a) == spec_symbol(*b));
                    } else {
                        assert(spec_symbol(*a) != spec_symbol(*b));
                    }
                }
                eq
            },
        },
    }
}

impl Amount {
    /// Returns a blank amount without a symbol.
    pub fn zero() -> (a: Amount)
        ensures
            a.mag == 0,
            a.symbol is None,
    {
        Amount { mag: 0, symbol: None }
    }

    /// A copy of this amount: same magnitude, same symbol characters.
    pub fn duplicate(&self) -> (r: Amount)
        ensures
            r.mag == self.mag,
            spec_symbol(r.symbol) == spec_symbol(self.symbol),
    {
        Amount { mag: self.mag, symbol: clone_symbol(&self.symbol) }
    }

    /// The sum of two amounts of one currency. An amount of another
    /// currency cannot be added: that is a mismatch the caller was to
    /// rule out, and it comes back as an error, as does a sum too large
    /// for the magnitude's machine type.
    pub fn add(&self, rhs: &Amount) -> (r: Result<Amount, ProcessingError>)
        ensures
            r matches Ok(a) ==> ({
                &&& spec_symbol(self.symbol) == spec_symbol(rhs.symbol)
                &&& a.mag == self.mag + rhs.mag
                &&& spec_symbol(a.symbol) == spec_symbol(self.symbol)
            }),
            r is Ok <==> (spec_symbol(self.symbol) == spec_symbol(rhs.symbol) && i64::MIN
                <= self.mag + rhs.mag <= i64::MAX),
    {
        if !symbols_match(&self.symbol, &rhs.symbol) {
            return Err(
                ProcessingError::new().set_message(
                    "tried to operate on two amounts with differing symbols; check for non-matching symbols before performing operations on amounts",
                ),
            );
        }
        match self.mag.checked_add(rhs.mag) {
            Some(mag) => Ok(Amount { mag, symbol: clone_symbol(&self.symbol) }),
            None => Err(
                ProcessingError::new().set_message(
                    "an amount grew past what this build can count; the operation was abandoned",
                ),
            ),
        }
    }

    /// The difference of two amounts of one currency, under the same
    /// rules as addition.
    pub fn sub(&self, rhs: &Amount) -> (r: Result<Amount, ProcessingError>)
        ensures
            r matches Ok(a) ==> ({
                &&& spec_symbol(self.symbol) == spec_symbol(rhs.symbol)
                &&& a.mag == self.mag - rhs.mag
                &&& spec_symbol(a.symbol) == spec_symbol(self.symbol)
            }),
            r is Ok <==> (spec_symbol(self.symbol) == spec_symbol(rhs.symbol) && i64::MIN
                <= self.mag - rhs.mag <= i64::MAX),
    {
        if !symbols_match(&self.symbol, &rhs.symbol) {
            return Err(
                ProcessingError::new().set_message(
                    "tried to operate on two amounts with differing symbols; check for non-matching symbols before performing operations on amounts",
                ),
            );
        }
        match self.mag.checked_sub(rhs.mag) {
            Some(mag) => Ok(Amount { mag, symbol: clone_symbol(&self.symbol) }),
            None => Err(
                ProcessingError::new().set_message(
                    "an amount grew past what this build can count; the operation was abandoned",
                ),
            ),
        }
    }

    /// The amount with the opposite magnitude and the same symbol, or
    /// `None` for the one magnitude whose opposite the machine type
    /// cannot hold.
    pub fn neg(&self) -> (r: Option<Amount>)
        ensures
            r matches Some(a) ==> a.mag == -self.mag && spec_symbol(a.symbol) == spec_symbol(
                self.symbol,
            ),
            r is Some <==> self.mag != i64::MIN,
    {
        match (0i64).checked_sub(self.mag) {
            Some(mag) => Some(Amount { mag, symbol: clone_symbol(&self.symbol) }),
            None => None,
        }
    }
}

/// AmountPool is a collection of amounts, possibly with different currencies. AmountPool is
/// designed to assist with handling these different amounts of different currencies.
#[derive(Debug)]
pub struct AmountPool {
    pool: Vec<Amount>,
}

impl View for AmountPool {
    type V = Seq<Amount>;

    closed spec fn view(&self) -> Seq<Amount> {
        self.pool@
    }
}

/// True where no two entries of the pool carry the same symbol: the
/// well-formedness every pool keeps.
pub open spec fn pool_wf(p: Seq<Amount>) -> bool {
    forall|i: int, j: int|
        0 <= i < j < p.len() ==> spec_symbol(p[i].symbol) != spec_symbol(p[j].symbol)
}

/// The running value the pool holds for symbol `s`, read from position
/// `k` on: the magnitude of the first entry with that symbol, or zero.
pub open spec fn spec_only_from(p: Seq<Amount>, s: Option<Seq<char>>, k: int) -> int
    decreases p.len() - k when 0 <= k <= p.len()
{
    if k >= p.len() {
        0
    } else if spec_symbol(p[k].symbol) == s {
        p[k].mag as int
    } else {
        spec_only_from(p, s, k + 1)
    }
}

/// The running value the pool holds for symbol `s`: the magnitude of its
/// entry for that symbol, or zero where it has none.
pub open spec fn spec_only(p: Seq<Amount>, s: Option<Seq<char>>) -> int {
    spec_only_from(p, s, 0)
}

/// True where the pool has an entry for symbol `s`.
pub open spec fn pool_has_symbol(p: Seq<Amount>, s: Option<Seq<char>>) -> bool {
    exists|j: int| 0 <= j < p.len() && spec_symbol(p[j].symbol) == s
}

/// What adding an amount `a` leaves of a pool: the value for `a`'s
/// symbol grows by `a`'s magnitude, every other symbol's value stays,
/// and the pool stays well-formed. This is the whole effect of
/// [`AmountPool::add`] on the pool's values.
pub open spec fn pool_add_outcome(p0: Seq<Amount>, p1: Seq<Amount>, a: Amount) -> bool {
    &&& spec_only(p1, spec_symbol(a.symbol)) == spec_only(p0, spec_symbol(a.symbol)) + a.mag
    &&& forall|s: Option<Seq<char>>|
        s != spec_symbol(a.symbol) ==> spec_only(p1, s) == spec_only(p0, s)
    &&& pool_wf(p1)
}

/// What subtracting an amount `a` leaves of a pool: the value for `a`'s
/// symbol shrinks by `a`'s magnitude, every other symbol's value stays,
/// and the pool stays well-formed.
pub open spec fn pool_sub_outcome(p0: Seq<Amount>, p1: Seq<Amount>, a: Amount) -> bool {
    &&& spec_only(p1, spec_symbol(a.symbol)) == spec_only(p0, spec_symbol(a.symbol)) - a.mag
    &&& forall|s: Option<Seq<char>>|
        s != spec_symbol(a.symbol) ==> spec_only(p1, s) == spec_only(p0, s)
    &&& pool_wf(p1)
}

/// A pool with no entry for `s` from position `k` on holds zero for it.
proof fn lemma_only_from_no_match(p: Seq<Amount>, s: Option<Seq<char>>, k: int)
    requires
        0 <= k <= p.len(),
        forall|j: int| k <= j < p.len() ==> spec_symbol(p[j].symbol) != s,
    ensures
        spec_only_from(p, s, k) == 0,
    decreases p.len() - k,
{
    if k < p.len() {
        lemma_only_from_no_match(p, s, k + 1);
    }
}

/// A pool whose first entry for `s` at or past `k` sits at `i` holds
/// that entry's magnitude for `s`.
proof fn lemma_only_from_match(p: Seq<Amount>, s: Option<Seq<char>>, k: int, i: int)
    requires
        0 <= k <= i < p.len(),
        spec_symbol(p[i].symbol) == s,
        forall|j: int| k <= j < i ==> spec_symbol(p[j].symbol) != s,
    ensures
        spec_only_from(p, s, k) == p[i].mag,
    decreases i - k,
{
    if k < i {
        lemma_only_from_match(p, s, k + 1, i);
    }
}

/// Replacing an entry of another symbol leaves the value for `s` alone.
proof fn lemma_only_update_other(p: Seq<Amount>, i: int, e: Amount, s: Option<Seq<char>>, k: int)
    requires
        0 <= k <= p.len(),
        0 <= i < p.len(),
        spec_symbol(e.symbol) != s,
        spec_symbol(p[i].symbol) != s,
    ensures
        spec_only_from(p.update(i, e), s, k) == spec_only_from(p, s, k),
    decreases p.len() - k,
{
    if k < p.len() {
        lemma_only_update_other(p, i, e, s, k + 1);
    }
}

/// Appending an entry of another symbol leaves the value for `s` alone.
proof fn lemma_only_push_other(p: Seq<Amount>, e: Amount, s: Option<Seq<char>>, k: int)
    requires
        0 <= k <= p.len(),
        spec_symbol(e.symbol) != s,
    ensures
        spec_only_from(p.push(e), s, k) == spec_only_from(p, s, k),
    decreases p.len() - k,
{
    if k < p.len() {
        lemma_only_push_other(p, e, s, k + 1);
    } else {
        assert(spec_only_from(p.push(e), s, p.len() as int + 1) == 0);
    }
}

/// A pool's value for any symbol is one entry's magnitude or zero, so
/// it always lies within the magnitude's machine type.
pub proof fn lemma_only_in_range(p: Seq<Amount>, s: Option<Seq<char>>, k: int)
    requires
        0 <= k <= p.len(),
    ensures
        i64::MIN <= spec_only_from(p, s, k) <= i64::MAX,
    decreases p.len() - k,
{
    if k < p.len() && spec_symbol(p[k].symbol) != s {
        lemma_only_in_range(p, s, k + 1);
    }
}

/// Two pools whose entries agree in magnitude and symbol hold the same
/// value for every symbol.
proof fn lemma_only_from_same(p1: Seq<Amount>, p2: Seq<Amount>, s: Option<Seq<char>>, k: int)
    requires
        p1.len() == p2.len(),
        0 <= k <= p1.len(),
        forall|j: int| 0 <= j < p1.len() ==> p1[j].mag == p2[j].mag,
        forall|j: int|
            0 <= j < p1.len() ==> spec_symbol(p1[j].symbol) == spec_symbol(
                #[trigger] p2[j].symbol,
            ),
    ensures
        spec_only_from(p1, s, k) == spec_only_from(p2, s, k),
    decreases p1.len() - k,
{
    if k < p1.len() {
        lemma_only_from_same(p1, p2, s, k + 1);
    }
}

/// The position of the pool's entry for a symbol, where it has one.
fn find_symbol(pool: &Vec<Amount>, sym: &Option<String>) -> (r: Option<usize>)
    ensures
        r matches Some(i) ==> i < pool@.len() && spec_symbol(pool@[i as int].symbol)
            == spec_symbol(*sym) && (forall|j: int|
            0 <= j < i ==> spec_symbol(pool@[j].symbol) != spec_symbol(*sym)),
        r is None ==> forall|j: int|
            0 <= j < pool@.len() ==> spec_symbol(pool@[j].symbol) != spec_symbol(*sym),
{
    let n = pool.len();
    let mut i: usize = 0;
    while i < n
        invariant
            0 <= i <= n,
            n == pool@.len(),
            forall|j: int| 0 <= j < i ==> spec_symbol(pool@[j].symbol) != spec_symbol(*sym),
        decreases n - i,
    {
        if symbols_match(&pool[i].symbol, sym) {
            return Some(i);
        }
        i = i + 1;
    }
    None
}

impl AmountPool {
    /// The invariant every pool keeps: one entry per symbol.
    pub open spec fn wf(&self) -> bool {
        pool_wf(self@)
    }

    /// A fresh, empty pool.
    pub fn new() -> (p: Self)
        ensures
            p@.len() == 0,
            p.wf(),
    {
        AmountPool { pool: Vec::new() }
    }

    /// The number of currencies the pool tracks.
    pub fn len(&self) -> (n: usize)
        ensures
            n == self@.len(),
    {
        self.pool.len()
    }

    /// Not to be confused with `is_zero`, `is_empty` returns true if and only if there are no
    /// amounts contained within this pool.
    ///
    /// If there is one or more amounts with zero magnitude, this function returns false because
    /// there are still amounts being tracked within this pool.
    pub fn is_empty(&self) -> (r: bool)
        ensures
            r == (self@.len() == 0),
    {
        self.pool.is_empty()
    }

    /// The pool's entries, in the order their currencies first appeared.
    pub fn amounts(&self) -> (r: &Vec<Amount>)
        ensures
            r@ == self@,
    {
        &self.pool
    }

    /// A pool holding one amount.
    pub fn from_amount(a: Amount) -> (p: Self)
        ensures
            p@.len() == 1,
            p@[0] == a,
            p.wf(),
    {
        let mut pool: Vec<Amount> = Vec::new();
        pool.push(a);
        AmountPool { pool }
    }

    /// Returns true if either (a) the pool is empty, or (b) all amounts in the pool have zero
    /// magnitude.
    pub fn is_zero(&self) -> (r: bool)
        ensures
            r == (forall|j: int| 0 <= j < self@.len() ==> self@[j].mag == 0),
    {
        let n = self.pool.len();
        let mut i: usize = 0;
        while i < n
            invariant
                0 <= i <= n,
                n == self@.len(),
                forall|j: int| 0 <= j < i ==> self@[j].mag == 0,
            decreases n - i,
        {
            if self.pool[i].mag != 0 {
                return false;
            }
            i = i + 1;
        }
        true
    }

    /// The pool's running amount for a symbol: that entry's value, or a
    /// blank zero amount where the pool has no such entry.
    pub fn only(&self, symbol: &Option<String>) -> (r: Amount)
        requires
            self.wf(),
        ensures
            r.mag == spec_only(self@, spec_symbol(*symbol)),
            pool_has_symbol(self@, spec_symbol(*symbol)) ==> spec_symbol(r.symbol) == spec_symbol(
                *symbol,
            ),
            !pool_has_symbol(self@, spec_symbol(*symbol)) ==> r.symbol is None && r.mag == 0,
    {
        match find_symbol(&self.pool, symbol) {
            Some(i) => {
                proof {
                    lemma_only_from_match(self@, spec_symbol(*symbol), 0, i as int);
                }
                Amount { mag: self.pool[i].mag, symbol: clone_symbol(&self.pool[i].symbol) }
            },
            None => {
                proof {
                    lemma_only_from_no_match(self@, spec_symbol(*symbol), 0);
                }
                Amount::zero()
            },
        }
    }

    /// A copy of the pool: the same values for every symbol.
    pub fn duplicate(&self) -> (r: AmountPool)
        ensures
            r@.len() == self@.len(),
            forall|j: int| 0 <= j < self@.len() ==> r@[j].mag == self@[j].mag,
            forall|j: int|
                0 <= j < self@.len() ==> spec_symbol(r@[j].symbol) == spec_symbol(
                    #[trigger] self@[j].symbol,
                ),
            forall|s: Option<Seq<char>>| spec_only(r@, s) == spec_only(self@, s),
            self.wf() ==> r.wf(),
    {
        let n = self.pool.len();
        let mut pool: Vec<Amount> = Vec::new();
        let mut i: usize = 0;
        while i < n
            invariant
                0 <= i <= n,
                n == self@.len(),
                self.pool@ == self@,
                pool@.len() == i,
                forall|j: int| 0 <= j < i ==> pool@[j].mag == self@[j].mag,
                forall|j: int|
                    0 <= j < i ==> spec_symbol(pool@[j].symbol) == spec_symbol(
                        #[trigger] self@[j].symbol,
                    ),
            decreases n - i,
        {
            pool.push(self.pool[i].duplicate());
            i = i + 1;
        }
        let r = AmountPool { pool };
        proof {
            assert forall|s: Option<Seq<char>>| spec_only(r@, s) == spec_only(self@, s) by {
                lemma_only_from_same(r@, self@, s, 0);
            }
        }
        r
    }

    /// Adds the amount to the pool's running value for its symbol:
    /// the entry for that symbol grows in place, or a new entry is
    /// appended where the symbol is new; no other entry moves. Only a
    /// magnitude past what the machine type can count is refused, and
    /// the pool is then unchanged.
    pub fn add(&mut self, amount: &Amount) -> (r: Result<(), ProcessingError>)
        requires
            old(self).wf(),
        ensures
            final(self).wf(),
            r is Ok ==> pool_add_outcome(old(self)@, final(self)@, *amount),
            r is Ok <==> i64::MIN <= spec_only(old(self)@, spec_symbol(amount.symbol)) + amount.mag
                <= i64::MAX,
            r is Err ==> final(self)@ == old(self)@,
            r is Ok && pool_has_symbol(old(self)@, spec_symbol(amount.symbol)) ==> ({
                &&& final(self)@.len() == old(self)@.len()
                &&& forall|j: int|
                    0 <= j < old(self)@.len() && spec_symbol((#[trigger] old(self)@[j]).symbol)
                        != spec_symbol(amount.symbol) ==> final(self)@[j] == old(self)@[j]
                &&& forall|j: int|
                    0 <= j < old(self)@.len() && spec_symbol((#[trigger] old(self)@[j]).symbol)
                        == spec_symbol(amount.symbol) ==> (final(self)@[j].mag == old(self)@[j].mag
                        + amount.mag && spec_symbol(final(self)@[j].symbol) == spec_symbol(
                        amount.symbol,
                    ))
            }),
            r is Ok && !pool_has_symbol(old(self)@, spec_symbol(amount.symbol)) ==> ({
                &&& final(self)@.len() == old(self)@.len() + 1
                &&& forall|j: int| 0 <= j < old(self)@.len() ==> final(self)@[j] == old(self)@[j]
                &&& final(self)@[old(self)@.len() as int].mag == amount.mag
                &&& spec_symbol(final(self)@[old(self)@.len() as int].symbol) == spec_symbol(
                    amount.symbol,
                )
            }),
    {
        let ghost sym = spec_symbol(amount.symbol);
        match find_symbol(&self.pool, &amount.symbol) {
            Some(i) => {
                proof {
                    lemma_only_from_match(self@, sym, 0, i as int);
                }
                match self.pool[i].mag.checked_add(amount.mag) {
                    Some(mag) => {
                        let e = Amount { mag, symbol: clone_symbol(&self.pool[i].symbol) };
                        proof {
                            assert(spec_symbol(e.symbol) == sym);
                        }
                        self.pool[i] = e;
                        proof {
                            lemma_only_from_match(self@, sym, 0, i as int);
                            assert forall|s: Option<Seq<char>>| s != sym implies spec_only(
                                self@,
                                s,
                            ) == spec_only(old(self)@, s) by {
                                lemma_only_update_other(old(self)@, i as int, e, s, 0);
                            }
                            assert(pool_wf(self@));
                        }
                        Ok(())
                    },
                    None => Err(
                        ProcessingError::new().set_message(
                            "a pool's total grew past what this build can count; the operation was abandoned",
                        ),
                    ),
                }
            },
            None => {
                proof {
                    lemma_only_from_no_match(self@, sym, 0);
                }
                let e = Amount { mag: amount.mag, symbol: clone_symbol(&amount.symbol) };
                proof {
                    assert(spec_symbol(e.symbol) == sym);
                }
                let ghost p0 = self@;
                self.pool.push(e);
                proof {
                    lemma_only_from_match(self@, sym, 0, p0.len() as int);
                    lemma_only_from_no_match(p0, sym, 0);
                    assert forall|s: Option<Seq<char>>| s != sym implies spec_only(self@, s)
                        == spec_only(p0, s) by {
                        lemma_only_push_other(p0, e, s, 0);
                    }
                    assert(pool_wf(self@));
                }
                Ok(())
            },
        }
    }

    /// Takes the amount out of the pool's running value for its symbol:
    /// the entry for that symbol shrinks in place, or a new negated
    /// entry is appended where the symbol is new; no other entry moves.
    /// Only a magnitude past what the machine type can count is
    /// refused, and the pool is then unchanged.
    pub fn subtract(&mut self, amount: &Amount) -> (r: Result<(), ProcessingError>)
        requires
            old(self).wf(),
        ensures
            final(self).wf(),
            r is Ok ==> pool_sub_outcome(old(self)@, final(self)@, *amount),
            r is Ok <==> i64::MIN <= spec_only(old(self)@, spec_symbol(amount.symbol)) - amount.mag
                <= i64::MAX,
            r is Err ==> final(self)@ == old(self)@,
            r is Ok && pool_has_symbol(old(self)@, spec_symbol(amount.symbol)) ==> ({
                &&& final(self)@.len() == old(self)@.len()
                &&& forall|j: int|
                    0 <= j < old(self)@.len() && spec_symbol((#[trigger] old(self)@[j]).symbol)
                        != spec_symbol(amount.symbol) ==> final(self)@[j] == old(self)@[j]
                &&& forall|j: int|
                    0 <= j < old(self)@.len() && spec_symbol((#[trigger] old(self)@[j]).symbol)
                        == spec_symbol(amount.symbol) ==> (final(self)@[j].mag == old(self)@[j].mag
                        - amount.mag && spec_symbol(final(self)@[j].symbol) == spec_symbol(
                        amount.symbol,
                    ))
            }),
            r is Ok && !pool_has_symbol(old(self)@, spec_symbol(amount.symbol)) ==> ({
                &&& final(self)@.len() == old(self)@.len() + 1
                &&& forall|j: int| 0 <= j < old(self)@.len() ==> final(self)@[j] == old(self)@[j]
                &&& final(self)@[old(self)@.len() as int].mag == 0 - amount.mag
                &&& spec_symbol(final(self)@[old(self)@.len() as int].symbol) == spec_symbol(
                    amount.symbol,
                )
            }),
    {
        let ghost sym = spec_symbol(amount.symbol);
        match find_symbol(&self.pool, &amount.symbol) {
            Some(i) => {
                proof {
                    lemma_only_from_match(self@, sym, 0, i as int);
                }
                match self.pool[i].mag.checked_sub(amount.mag) {
                    Some(mag) => {
                        let e = Amount { mag, symbol: clone_symbol(&self.pool[i].symbol) };
                        proof {
                            assert(spec_symbol(e.symbol) == sym);
                        }
                        self.pool[i] = e;
                        proof {
                            lemma_only_from_match(self@, sym, 0, i as int);
                            assert forall|s: Option<Seq<char>>| s != sym implies spec_only(
                                self@,
                                s,
                            ) == spec_only(old(self)@, s) by {
                                lemma_only_update_other(old(self)@, i as int, e, s, 0);
                            }
                            assert(pool_wf(self@));
                        }
                        Ok(())
                    },
                    None => Err(
                        ProcessingError::new().set_message(
                            "a pool's total grew past what this build can count; the operation was abandoned",
                        ),
                    ),
                }
            },
            None => {
                proof {
                    lemma_only_from_no_match(self@, sym, 0);
                }
                match (0i64).checked_sub(amount.mag) {
                    Some(mag) => {
                        let e = Amount { mag, symbol: clone_symbol(&amount.symbol) };
                        proof {
                            assert(spec_symbol(e.symbol) == sym);
                        }
                        let ghost p0 = self@;
                        self.pool.push(e);
                        proof {
                            lemma_only_from_match(self@, sym, 0, p0.len() as int);
                            lemma_only_from_no_match(p0, sym, 0);
                            assert forall|s: Option<Seq<char>>| s != sym implies spec_only(
                                self@,
                                s,
                            ) == spec_only(p0, s) by {
                                lemma_only_push_other(p0, e, s, 0);
                            }
                            assert(pool_wf(self@));
                        }
                        Ok(())
                    },
                    None => Err(
                        ProcessingError::new().set_message(
                            "a pool's total grew past what this build can count; the operation was abandoned",
                        ),
                    ),
                }
            },
        }
    }
}

/// Adding an amount to a pool and then subtracting it restores the
/// pool's running value for every currency, the amount's own included.
pub proof fn lemma_pool_add_then_subtract_restores(
    p0: Seq<Amount>,
    p1: Seq<Amount>,
    p2: Seq<Amount>,
    a: Amount,
)
    requires
        pool_add_outcome(p0, p1, a),
        pool_sub_outcome(p1, p2, a),
    ensures
        forall|s: Option<Seq<char>>| spec_only(p2, s) == spec_only(p0, s),
{
}

} // verus!
