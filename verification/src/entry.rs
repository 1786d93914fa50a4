//! Entries: immutable transactions.
//!
//! An [`Entry`] is a dated, ordered list of postings with a status, a
//! description and an optional payee. Validation admits at most one
//! blank posting and refuses a blank among postings of several
//! currencies; [`Entry::get_blank_amount`] infers the amount a blank
//! posting must carry for the entry to balance to zero.

use crate::amount::Amount;
use crate::amount::AmountView;
use crate::amount::clone_symbol;
use crate::date::Date;
use crate::errors::ParseError;
use crate::errors::ProcessingError;
use crate::errors::ValidationError;
use crate::fmt::date_to_string;
use crate::fmt::posting_to_string;
use crate::posting::Posting;
use crate::posting::PostingView;
use vstd::prelude::*;

pub mod builder;

verus! {

/// How sure the ledger's keeper is of an entry: pending (`?`), cleared
/// (`~`), or reconciled (`*`).
#[derive(Clone, Copy, Debug, PartialEq, Eq, Structural)]
pub enum EntryStatus {
    /// `?`
    Pending,
    /// `~`
    Cleared,
    /// `*`
    Reconciled,
}

impl EntryStatus {
    /// The status a character names, or an error for any other character.
    pub fn from_char(c: char) -> (r: Result<Self, ParseError>)
        ensures
            c == '?' ==> r == Ok::<EntryStatus, ParseError>(EntryStatus::Pending),
            c == '~' ==> r == Ok::<EntryStatus, ParseError>(EntryStatus::Cleared),
            c == '*' ==> r == Ok::<EntryStatus, ParseError>(EntryStatus::Reconciled),
            c != '?' && c != '~' && c != '*' ==> r is Err,
    {
        if c == '?' {
            Ok(EntryStatus::Pending)
        } else if c == '~' {
            Ok(EntryStatus::Cleared)
        } else if c == '*' {
            Ok(EntryStatus::Reconciled)
        } else {
            Err(
                ParseError::new().set_message(
                    "statuses are required on entries, and this is not a status character; use `?`, `~` or `*`",
                ),
            )
        }
    }

    /// The status a one-character string names, or an error for any
    /// other string.
    pub fn from_str(s: &str) -> (r: Result<Self, ParseError>)
        ensures
            s@.len() == 1 && s@[0] == '?' ==> r == Ok::<EntryStatus, ParseError>(
                EntryStatus::Pending,
            ),
            s@.len() == 1 && s@[0] == '~' ==> r == Ok::<EntryStatus, ParseError>(
                EntryStatus::Cleared,
            ),
            s@.len() == 1 && s@[0] == '*' ==> r == Ok::<EntryStatus, ParseError>(
                EntryStatus::Reconciled,
            ),
            !(s@.len() == 1 && (s@[0] == '?' || s@[0] == '~' || s@[0] == '*')) ==> r is Err,
    {
        if s.unicode_len() == 1 {
            Self::from_char(s.get_char(0))
        } else {
            Err(
                ParseError::new().set_message(
                    "statuses are required on entries, and this is not a status; use `?`, `~` or `*`",
                ),
            )
        }
    }

    /// The character that names this status.
    pub fn to_char(&self) -> (c: char)
        ensures
            self is Pending ==> c == '?',
            self is Cleared ==> c == '~',
            self is Reconciled ==> c == '*',
    {
        match self {
            EntryStatus::Pending => '?',
            EntryStatus::Cleared => '~',
            EntryStatus::Reconciled => '*',
        }
    }
}

/// A transaction: a date, a status, a description, an optional payee and
/// comment, and the postings that move the money.
#[derive(Clone, Debug, PartialEq, Eq)]
pub struct Entry {
    /// The day the transaction happened.
    pub date: Date,
    /// How sure the keeper is of it.
    pub status: EntryStatus,
    /// What the transaction was.
    pub description: String,
    /// Whom it was with, where recorded.
    pub payee: Option<String>,
    /// A free-form note, where recorded.
    pub comment: Option<String>,
    /// The postings in this Entry. This cannot be changed, because accounts and envelopes process
    /// entries only once; a modified entry could not be reflected elsewhere on the fly.
    pub postings: Vec<Posting>,
}

/// An entry as a plain value.
pub struct EntryView {
    /// The day the transaction happened.
    pub date: Date,
    /// How sure the keeper is of it.
    pub status: EntryStatus,
    /// What the transaction was.
    pub description: Seq<char>,
    /// Whom it was with, where recorded.
    pub payee: Option<Seq<char>>,
    /// A free-form note, where recorded.
    pub comment: Option<Seq<char>>,
    /// The postings, in order.
    pub postings: Seq<PostingView>,
}

/// An optional string as an optional character sequence.
pub open spec fn spec_opt_str(s: Option<String>) -> Option<Seq<char>> {
    match s {
        Some(x) => Some(x@),
        None => None,
    }
}

impl View for Entry {
    type V = EntryView;

    open spec fn view(&self) -> EntryView {
        EntryView {
            date: self.date,
            status: self.status,
            description: self.description@,
            payee: spec_opt_str(self.payee),
            comment: spec_opt_str(self.comment),
            postings: self.postings@.map_values(|p: Posting| p@),
        }
    }
}

/// True where some posting is blank.
pub open spec fn has_blank(postings: Seq<PostingView>) -> bool {
    exists|j: int| 0 <= j < postings.len() && postings[j].is_blank()
}

/// True where two postings are blank.
pub open spec fn has_two_blanks(postings: Seq<PostingView>) -> bool {
    exists|i: int, j: int|
        0 <= i < j < postings.len() && postings[i].is_blank() && postings[j].is_blank()
}

/// True where some posting is an envelope posting.
pub open spec fn has_envelope(postings: Seq<PostingView>) -> bool {
    exists|j: int| 0 <= j < postings.len() && postings[j] is Envelope
}

/// True where two postings carry amounts of different currencies.
pub open spec fn mixed_currencies(postings: Seq<PostingView>) -> bool {
    exists|i: int, j: int|
        #![trigger postings[i], postings[j]]
        0 <= i < postings.len() && 0 <= j < postings.len() && postings[i].amount() is Some
            && postings[j].amount() is Some && postings[i].amount()->0.symbol
            != postings[j].amount()->0.symbol
}

/// The named (non-native) currency of a posting's amount, where it has
/// one: `None` both for blank postings and for native amounts.
pub open spec fn named_symbol(p: PostingView) -> Option<Seq<char>> {
    match p.amount() {
        Some(a) => a.symbol,
        None => None,
    }
}

/// True where two postings carry amounts of different named (non-native)
/// currencies: what validation counts, since a blank can still be
/// inferred beside native postings.
pub open spec fn two_named_currencies(postings: Seq<PostingView>) -> bool {
    exists|i: int, j: int|
        #![trigger postings[i], postings[j]]
        0 <= i < postings.len() && 0 <= j < postings.len() && named_symbol(postings[i]) is Some
            && named_symbol(postings[j]) is Some && named_symbol(postings[i]) != named_symbol(
            postings[j],
        )
}

/// The position of the first posting with an amount, from `k` on; the
/// length where none has one.
pub open spec fn first_amount_from(postings: Seq<PostingView>, k: int) -> int
    decreases postings.len() - k when 0 <= k <= postings.len()
{
    if k >= postings.len() {
        postings.len() as int
    } else if postings[k].amount() is Some {
        k
    } else {
        first_amount_from(postings, k + 1)
    }
}

/// The sum of the amounts the postings carry, from `k` on; blank
/// postings contribute nothing.
pub open spec fn sum_amounts_from(postings: Seq<PostingView>, k: int) -> int
    decreases postings.len() - k when 0 <= k <= postings.len()
{
    if k >= postings.len() {
        0
    } else {
        (match postings[k].amount() {
            Some(a) => a.mag,
            None => 0,
        }) + sum_amounts_from(postings, k + 1)
    }
}

/// The sum of the postings' native-currency worths, from `k` on;
/// postings without one contribute nothing.
pub open spec fn sum_natives_from(postings: Seq<PostingView>, k: int) -> int
    decreases postings.len() - k when 0 <= k <= postings.len()
{
    if k >= postings.len() {
        0
    } else {
        (match postings[k].native_value() {
            Some(v) => v,
            None => 0,
        }) + sum_natives_from(postings, k + 1)
    }
}

/// True where every posting that carries an amount also has a
/// native-currency worth.
pub open spec fn all_amounts_have_natives(postings: Seq<PostingView>) -> bool {
    forall|j: int|
        0 <= j < postings.len() && postings[j].amount() is Some ==> postings[j].native_value()
            is Some
}

/// What `Entry::get_blank_amount` must return when the entry has a blank
/// posting among postings of one currency: the negated sum of the
/// others, in their shared currency.
pub open spec fn blank_single_currency_ok(postings: Seq<PostingView>, b: AmountView) -> bool {
    &&& b.mag == -sum_amounts_from(postings, 0)
    &&& first_amount_from(postings, 0) < postings.len()
    &&& b.symbol == postings[first_amount_from(postings, 0)].amount()->0.symbol
}

/// The envelope postings among `postings`, from position `k` on, in
/// order.
pub open spec fn envelope_postings_from(postings: Seq<PostingView>, k: int) -> Seq<PostingView>
    decreases postings.len() - k when 0 <= k <= postings.len()
{
    if k >= postings.len() {
        Seq::empty()
    } else if postings[k] is Envelope {
        seq![postings[k]] + envelope_postings_from(postings, k + 1)
    } else {
        envelope_postings_from(postings, k + 1)
    }
}

/// What `Entry::get_blank_amount` must return when the entry has a blank
/// posting among postings of several currencies: the negated sum of
/// their native-currency worths, in the native currency.
pub open spec fn blank_mixed_ok(postings: Seq<PostingView>, b: AmountView) -> bool {
    &&& b.mag == -sum_natives_from(postings, 0)
    &&& b.symbol is None
}

impl Entry {
    /// Assembles an entry from its parts; an empty comment is recorded
    /// as no comment at all.
    pub fn new(
        date: Date,
        status: EntryStatus,
        description: String,
        payee: Option<String>,
        postings: Vec<Posting>,
        comment: Option<String>,
    ) -> (e: Entry)
        ensures
            e.date == date,
            e.status == status,
            e.description == description,
            e.payee == payee,
            e.postings == postings,
            spec_opt_str(e.comment) == (match spec_opt_str(comment) {
                Some(c) => if c.len() == 0 {
                    None
                } else {
                    Some(c)
                },
                None => None::<Seq<char>>,
            }),
    {
        let comment = match comment {
            Some(c) => {
                if c.as_str().is_empty() {
                    None
                } else {
                    Some(c)
                }
            },
            None => None,
        };
        Entry { date, status, description, payee, comment, postings }
    }

    /// The entry's date.
    pub fn get_date(&self) -> (r: &Date)
        ensures
            r == &self.date,
    {
        &self.date
    }

    /// The entry's postings, in order.
    pub fn get_postings(&self) -> (r: &Vec<Posting>)
        ensures
            r == &self.postings,
    {
        &self.postings
    }

    /// True where some posting is blank.
    pub fn has_blank_posting(&self) -> (r: bool)
        ensures
            r == has_blank(self@.postings),
    {
        let n = self.postings.len();
        let mut i: usize = 0;
        while i < n
            invariant
                0 <= i <= n,
                n == self.postings@.len(),
                self@.postings.len() == n,
                forall|j: int| 0 <= j < i ==> !self@.postings[j].is_blank(),
            decreases n - i,
        {
            if self.postings[i].get_amount().is_none() {
                assert(self@.postings[i as int].is_blank());
                return true;
            }
            i = i + 1;
        }
        false
    }

    /// True where some posting is an envelope posting.
    pub fn has_envelope_posting(&self) -> (r: bool)
        ensures
            r == has_envelope(self@.postings),
    {
        let n = self.postings.len();
        let mut i: usize = 0;
        while i < n
            invariant
                0 <= i <= n,
                n == self.postings@.len(),
                self@.postings.len() == n,
                forall|j: int| 0 <= j < i ==> !(self@.postings[j] is Envelope),
            decreases n - i,
        {
            if self.postings[i].is_envelope() {
                assert(self@.postings[i as int] is Envelope);
                return true;
            }
            i = i + 1;
        }
        false
    }

    /// True where two postings carry amounts of different currencies.
    pub fn has_mixed_currencies(&self) -> (r: bool)
        ensures
            r == mixed_currencies(self@.postings),
    {
        let n = self.postings.len();
        let mut i: usize = 0;
        let mut witness: Option<Amount> = None;
        while i < n
            invariant
                0 <= i <= n,
                n == self.postings@.len(),
                self@.postings.len() == n,
                witness matches Some(w) ==> exists|j: int|
                    0 <= j < i && self@.postings[j].amount() == Some(w@),
                witness is None ==> forall|j: int|
                    0 <= j < i ==> self@.postings[j].amount() is None,
                forall|j1: int, j2: int|
                    #![trigger self@.postings[j1], self@.postings[j2]]
                    0 <= j1 < i && 0 <= j2 < i && self@.postings[j1].amount() is Some
                        && self@.postings[j2].amount() is Some ==> self@.postings[j1].amount()->0.symbol
                        == self@.postings[j2].amount()->0.symbol,
            decreases n - i,
        {
            match self.postings[i].get_amount() {
                Some(a) => {
                    match &witness {
                        Some(w) => {
                            if !crate::amount::symbols_match(&w.symbol, &a.symbol) {
                                assert(self@.postings[i as int].amount() == Some(a@));
                                return true;
                            }
                        },
                        None => {
                            let d = a.duplicate();
                            proof {
                                assert(self@.postings[i as int].amount() == Some(a@));
                                assert(d@ == a@);
                            }
                            witness = Some(d);
                        },
                    }
                },
                None => {},
            }
            i = i + 1;
        }
        false
    }

    /// True where some posting addresses the named account.
    pub fn contains_account_posting(&self, account_name: &str) -> (r: bool)
        ensures
            r == exists|j: int|
                0 <= j < self@.postings.len() && self@.postings[j].account() == account_name@,
    {
        let n = self.postings.len();
        let mut i: usize = 0;
        while i < n
            invariant
                0 <= i <= n,
                n == self.postings@.len(),
                self@.postings.len() == n,
                forall|j: int| 0 <= j < i ==> self@.postings[j].account() != account_name@,
            decreases n - i,
        {
            if crate::utils::str_eq(self.postings[i].get_account().as_str(), account_name) {
                assert(self@.postings[i as int].account() == account_name@);
                return true;
            }
            i = i + 1;
        }
        false
    }

    /// The entry's envelope postings, in order.
    pub fn get_envelope_postings(&self) -> (r: Vec<Posting>)
        ensures
            r@.map_values(|p: Posting| p@) == envelope_postings_from(self@.postings, 0),
    {
        let n = self.postings.len();
        let mut result: Vec<Posting> = Vec::new();
        let mut i: usize = 0;
        while i < n
            invariant
                0 <= i <= n,
                n == self.postings@.len(),
                self@.postings.len() == n,
                envelope_postings_from(self@.postings, 0) =~= result@.map_values(
                    |p: Posting| p@,
                ) + envelope_postings_from(self@.postings, i as int),
            decreases n - i,
        {
            let ghost before = result@.map_values(|p: Posting| p@);
            if self.postings[i].is_envelope() {
                let d = self.postings[i].duplicate();
                result.push(d);
                proof {
                    assert(result@.map_values(|p: Posting| p@) =~= before.push(
                        self@.postings[i as int],
                    ));
                }
            }
            i = i + 1;
        }
        proof {
            assert(envelope_postings_from(self@.postings, n as int) =~= Seq::<
                PostingView,
            >::empty());
            assert(result@.map_values(|p: Posting| p@) =~= envelope_postings_from(
                self@.postings,
                0,
            ));
        }
        result
    }

    /// Checks that the Entry is valid. An entry is refused exactly where
    /// it has two blank postings, or a blank posting among postings of
    /// two named currencies: such a blank could not be inferred. The
    /// error carries `context` as its snippet.
    pub fn validate(&self, context: &str) -> (r: Result<(), ValidationError>)
        ensures
            r is Err <==> (has_two_blanks(self@.postings) || (has_blank(self@.postings)
                && two_named_currencies(self@.postings))),
            r matches Err(e) ==> e.context matches Some(c) && c@ == context@,
    {
        let n = self.postings.len();
        let mut i: usize = 0;
        let mut blanks: usize = 0;
        let mut named: Option<Amount> = None;
        let mut two_named: bool = false;
        while i < n
            invariant
                0 <= i <= n,
                n == self.postings@.len(),
                self@.postings.len() == n,
                blanks <= 1,
                (blanks == 1) == exists|j: int| 0 <= j < i && self@.postings[j].is_blank(),
                !has_two_blanks(self@.postings.take(i as int)),
                named matches Some(w) ==> (w.symbol is Some && exists|j: int|
                    #![trigger self@.postings[j]]
                    0 <= j < i && named_symbol(self@.postings[j]) == spec_symbol_of(w)),
                named is None ==> forall|j: int|
                    #![trigger self@.postings[j]]
                    0 <= j < i ==> named_symbol(self@.postings[j]) is None,
                !two_named ==> (forall|j: int|
                    #![trigger self@.postings[j]]
                    0 <= j < i && named_symbol(self@.postings[j]) is Some ==> (
                    named matches Some(w) && named_symbol(self@.postings[j]) == spec_symbol_of(
                        w,
                    ))),
                two_named ==> two_named_currencies(self@.postings),
            decreases n - i,
        {
            let ghost prefix = self@.postings.take(i as int);
            match self.postings[i].get_amount() {
                Some(a) => {
                    if a.symbol.is_some() {
                        match &named {
                            Some(w) => {
                                if !crate::amount::symbols_match(&w.symbol, &a.symbol) {
                                    proof {
                                        assert(self@.postings[i as int].amount() == Some(a@));
                                    }
                                    two_named = true;
                                }
                            },
                            None => {
                                let d = a.duplicate();
                                proof {
                                    assert(self@.postings[i as int].amount() == Some(a@));
                                    assert(d@ == a@);
                                }
                                named = Some(d);
                            },
                        }
                    }
                },
                None => {
                    proof {
                        assert(self@.postings[i as int].is_blank());
                    }
                    if blanks >= 1 {
                        proof {
                            assert(has_two_blanks(self@.postings));
                        }
                        return Err(
                            ValidationError::new().set_message(
                                "a single entry can't have more than one blank posting",
                            ).set_context(context),
                        );
                    }
                    blanks = 1;
                },
            }
            proof {
                assert(self@.postings.take(i as int + 1) =~= prefix.push(
                    self@.postings[i as int],
                ));
            }
            i = i + 1;
        }
        proof {
            assert(self@.postings.take(n as int) =~= self@.postings);
        }
        if blanks > 0 && two_named {
            return Err(
                ValidationError::new().set_message(
                    "the amount of a blank posting cannot be inferred when other postings have mixed currencies",
                ).set_context(context),
            );
        }
        proof {
            if has_two_blanks(self@.postings) {
                assert(exists|j: int|
                    0 <= j < self@.postings.len() && self@.postings[j].is_blank());
            }
        }
        Ok(())
    }
}

/// The view of an amount's symbol, for the validation loop's notes.
pub open spec fn spec_symbol_of(a: Amount) -> Option<Seq<char>> {
    a@.symbol
}

/// The whole outcome of blank-amount inference as one value: `None`
/// where the inference fails, `Some(None)` where no posting is blank,
/// and `Some(Some(b))` where the blank posting must carry `b`.
pub open spec fn blank_outcome(postings: Seq<PostingView>) -> Option<Option<AmountView>> {
    if !has_blank(postings) {
        Some(None)
    } else if mixed_currencies(postings) {
        if all_amounts_have_natives(postings) && i64::MIN <= -sum_natives_from(postings, 0)
            <= i64::MAX {
            Some(Some(AmountView { mag: -sum_natives_from(postings, 0), symbol: None }))
        } else {
            None
        }
    } else {
        let fa = first_amount_from(postings, 0);
        if fa < postings.len() && i64::MIN <= -sum_amounts_from(postings, 0) <= i64::MAX {
            Some(
                Some(
                    AmountView {
                        mag: -sum_amounts_from(postings, 0),
                        symbol: postings[fa].amount()->0.symbol,
                    },
                ),
            )
        } else {
            None
        }
    }
}

impl Entry {
    /// The amount the entry's blank posting must carry for the entry to
    /// balance to zero: `None` where no posting is blank. Among postings
    /// of one currency it is the negated sum of the others, in that
    /// currency; among mixed currencies it is the negated sum of every
    /// posting's native-currency worth, in the native currency, and a
    /// posting that carries an amount without a native worth makes the
    /// inference fail. The inference also fails for a blank with no
    /// other amounts to read, and for a sum past what the magnitude's
    /// machine type can count.
    pub fn get_blank_amount(&self) -> (r: Result<Option<Amount>, ProcessingError>)
        requires
            self@.postings.len() <= 1000000000,
        ensures
            !has_blank(self@.postings) ==> r == Ok::<Option<Amount>, ProcessingError>(None),
            has_blank(self@.postings) && mixed_currencies(self@.postings) ==> ({
                let total = sum_natives_from(self@.postings, 0);
                &&& (all_amounts_have_natives(self@.postings) && i64::MIN <= -total <= i64::MAX)
                    ==> (r matches Ok(o) && o matches Some(b) && blank_mixed_ok(
                    self@.postings,
                    b@,
                ))
                &&& !(all_amounts_have_natives(self@.postings) && i64::MIN <= -total <= i64::MAX)
                    ==> r is Err
            }),
            has_blank(self@.postings) && !mixed_currencies(self@.postings) ==> ({
                let fa = first_amount_from(self@.postings, 0);
                let total = sum_amounts_from(self@.postings, 0);
                &&& (fa < self@.postings.len() && i64::MIN <= -total <= i64::MAX) ==> (
                r matches Ok(o) && o matches Some(b) && blank_single_currency_ok(
                    self@.postings,
                    b@,
                ))
                &&& !(fa < self@.postings.len() && i64::MIN <= -total <= i64::MAX) ==> r is Err
            }),
            r is Ok <==> blank_outcome(self@.postings) is Some,
            r matches Ok(o) ==> (match o {
                Some(b) => blank_outcome(self@.postings) == Some(Some(b@)),
                None => blank_outcome(self@.postings) == Some(None::<AmountView>),
            }),
    {
        if !self.has_blank_posting() {
            return Ok(None);
        }
        let n = self.postings.len();
        if self.has_mixed_currencies() {
            let mut acc: i128 = 0;
            let mut i: usize = 0;
            while i < n
                invariant
                    0 <= i <= n,
                    n == self.postings@.len(),
                    self@.postings.len() == n,
                    n <= 1000000000,
                    has_blank(self@.postings),
                    mixed_currencies(self@.postings),
                    acc == -(sum_natives_from(self@.postings, 0) - sum_natives_from(
                        self@.postings,
                        i as int,
                    )),
                    -(i * 0x8000000000000000) <= acc <= i * 0x8000000000000000,
                    forall|j: int|
                        #![trigger self@.postings[j]]
                        0 <= j < i && self@.postings[j].amount() is Some
                            ==> self@.postings[j].native_value() is Some,
                decreases n - i,
            {
                match self.postings[i].get_original_native_value() {
                    Some(v) => {
                        acc = acc - v as i128;
                    },
                    None => {
                        if self.postings[i].get_amount().is_some() {
                            proof {
                                assert(!all_amounts_have_natives(self@.postings));
                            }
                            let ctx = self.as_full_string();
                            return Err(
                                ProcessingError::new().set_message(
                                    "a value for this entry's blank posting amount cannot be inferred: there are multiple currencies here, but one posting does not provide its currency's worth in the native currency",
                                ).set_context(ctx.as_str()),
                            );
                        }
                        proof {
                            assert(self@.postings[i as int].native_value() is None);
                        }
                    },
                }
                i = i + 1;
            }
            proof {
                assert(sum_natives_from(self@.postings, n as int) == 0);
                assert(all_amounts_have_natives(self@.postings));
            }
            if -0x8000000000000000i128 <= acc && acc <= 0x7fffffffffffffffi128 {
                Ok(Some(Amount { mag: acc as i64, symbol: None }))
            } else {
                Err(
                    ProcessingError::new().set_message(
                        "the inferred blank amount grew past what this build can count",
                    ),
                )
            }
        } else {
            let mut acc: i128 = 0;
            let mut i: usize = 0;
            let mut first: Option<Amount> = None;
            while i < n
                invariant
                    0 <= i <= n,
                    n == self.postings@.len(),
                    self@.postings.len() == n,
                    n <= 1000000000,
                    has_blank(self@.postings),
                    !mixed_currencies(self@.postings),
                    acc == -(sum_amounts_from(self@.postings, 0) - sum_amounts_from(
                        self@.postings,
                        i as int,
                    )),
                    -(i * 0x8000000000000000) <= acc <= i * 0x8000000000000000,
                    first matches Some(w) ==> ({
                        let fa = first_amount_from(self@.postings, 0);
                        &&& 0 <= fa < i
                        &&& self@.postings[fa].amount() matches Some(a) && a.symbol
                            == spec_symbol_of(w)
                    }),
                    first is None ==> forall|j: int|
                        0 <= j < i ==> self@.postings[j].amount() is None,
                decreases n - i,
            {
                match self.postings[i].get_amount() {
                    Some(a) => {
                        proof {
                            assert(self@.postings[i as int].amount() == Some(a@));
                        }
                        if first.is_none() {
                            proof {
                                assert(first_amount_from(self@.postings, i as int) == i as int);
                                lemma_first_amount_stable(self@.postings, 0, i as int);
                            }
                            first = Some(a.duplicate());
                        }
                        let m = a.mag;
                        acc = acc - m as i128;
                    },
                    None => {
                        proof {
                            assert(self@.postings[i as int].amount() is None);
                        }
                    },
                }
                i = i + 1;
            }
            proof {
                assert(sum_amounts_from(self@.postings, n as int) == 0);
                if first is None {
                    lemma_first_amount_stable(self@.postings, 0, n as int);
                }
            }
            match first {
                Some(w) => {
                    if -0x8000000000000000i128 <= acc && acc <= 0x7fffffffffffffffi128 {
                        Ok(Some(Amount { mag: acc as i64, symbol: clone_symbol(&w.symbol) }))
                    } else {
                        Err(
                            ProcessingError::new().set_message(
                                "the inferred blank amount grew past what this build can count",
                            ),
                        )
                    }
                },
                None => {
                    let ctx = self.as_full_string();
                    Err(
                        ProcessingError::new().set_message(
                            "a value for this entry's blank posting amount cannot be inferred: no other posting carries an amount to balance against",
                        ).set_context(ctx.as_str()),
                    )
                },
            }
        }
    }

    /// The entry as readable text: its header line, then one line per
    /// posting. Errors carry this as their snippet.
    pub fn as_full_string(&self) -> (r: String) {
        let mut s = date_to_string(&self.date);
        s.append(" ");
        let c = self.status.to_char();
        s.append(status_str(c));
        s.append(" ");
        s.append(self.description.as_str());
        s.append(" [");
        match &self.payee {
            Some(p) => s.append(p.as_str()),
            None => s.append("No payee"),
        }
        s.append("]");
        let n = self.postings.len();
        let mut i: usize = 0;
        while i < n
            invariant
                i <= n,
                n == self.postings@.len(),
            decreases n - i,
        {
            s.append("\n\t");
            let line = posting_to_string(&self.postings[i]);
            s.append(line.as_str());
            i = i + 1;
        }
        s
    }
}

/// A status character as text.
fn status_str(c: char) -> (r: &'static str) {
    if c == '?' {
        "?"
    } else if c == '~' {
        "~"
    } else {
        "*"
    }
}

/// The first amount position does not move while scanning past postings
/// that precede it.
proof fn lemma_first_amount_stable(postings: Seq<PostingView>, k: int, i: int)
    requires
        0 <= k <= i <= postings.len(),
        forall|j: int| k <= j < i ==> postings[j].amount() is None,
    ensures
        first_amount_from(postings, k) == first_amount_from(postings, i),
    decreases i - k,
{
    if k < i {
        lemma_first_amount_stable(postings, k + 1, i);
    }
}

} // verus!
