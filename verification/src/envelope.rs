//! Envelopes: the budget buckets of an account.
//!
//! An [`Envelope`] earmarks money of one account toward a target amount
//! under a due-date policy: it keeps what is saved for the current
//! period (`now_amount`) and for the one after it (`next_amount`), and
//! the date of the last transaction that touched it. Entries move money
//! in and out, either through explicit envelope postings or inferred
//! from postings between the envelope's parent account and its
//! registered companion accounts; the funding method says how much an
//! automatic fill may move.

pub mod builder;

use crate::amount::Amount;
use crate::amount::AmountPool;
use crate::amount::clone_symbol;
use crate::amount::spec_only;
use crate::amount::spec_symbol;
use crate::amount::symbols_match;
use crate::date::Date;
use crate::entry::Entry;
use crate::errors::ParseError;
use crate::errors::ProcessingError;
use crate::frequency::Frequency;
use crate::frequency::last_due_matches;
use crate::frequency::next_due_matches;
use crate::amount::AmountView;
use crate::posting::EnvelopePosting;
use crate::posting::PostingView;
use crate::utils::trim;
use crate::utils::trunc_div;
use vstd::prelude::*;

verus! {

/// What an envelope is for: a recurring expense, or a savings goal.
#[derive(Clone, Copy, Debug, PartialEq, Eq, Structural)]
pub enum EnvelopeType {
    Expense,
    Goal,
}

impl EnvelopeType {
    /// The envelope type a word names: `expense` or `goal`.
    pub fn from_str(raw: &str) -> (r: Result<Self, ParseError>)
        ensures
            raw@ == "expense"@ ==> r == Ok::<EnvelopeType, ParseError>(EnvelopeType::Expense),
            raw@ == "goal"@ ==> r == Ok::<EnvelopeType, ParseError>(EnvelopeType::Goal),
            raw@ != "expense"@ && raw@ != "goal"@ ==> r is Err,
    {
        proof {
            reveal_strlit("expense");
            reveal_strlit("goal");
            assert("expense"@.len() == 7);
            assert("goal"@.len() == 4);
            assert("expense"@ != "goal"@);
        }
        if crate::utils::str_eq(raw, "expense") {
            Ok(EnvelopeType::Expense)
        } else if crate::utils::str_eq(raw, "goal") {
            Ok(EnvelopeType::Goal)
        } else {
            Err(
                ParseError::new().set_message(
                    "this envelope type doesn't exist; instead use either `expense` or `goal`",
                ).set_context(raw),
            )
        }
    }
}

/// How an envelope is filled: by hand only, spread evenly over the days
/// until it is due, or as fast as the available balance allows.
#[derive(Clone, Copy, Debug, PartialEq, Eq, Structural)]
pub enum FundingMethod {
    Manual,
    Conservative,
    Aggressive,
}

impl FundingMethod {
    /// The funding method a word names, ignoring surrounding
    /// whitespace: `manual`, `conservative` or `aggressive`.
    pub fn from_str(raw: &str) -> (r: Result<Self, ParseError>)
        ensures
            crate::utils::spec_trim(raw@) == "manual"@ ==> r == Ok::<FundingMethod, ParseError>(
                FundingMethod::Manual,
            ),
            crate::utils::spec_trim(raw@) == "aggressive"@ ==> r == Ok::<
                FundingMethod,
                ParseError,
            >(FundingMethod::Aggressive),
            crate::utils::spec_trim(raw@) == "conservative"@ ==> r == Ok::<
                FundingMethod,
                ParseError,
            >(FundingMethod::Conservative),
            !(crate::utils::spec_trim(raw@) == "manual"@ || crate::utils::spec_trim(raw@)
                == "aggressive"@ || crate::utils::spec_trim(raw@) == "conservative"@) ==> r is Err,
    {
        proof {
            reveal_strlit("manual");
            reveal_strlit("aggressive");
            reveal_strlit("conservative");
            assert("manual"@.len() == 6);
            assert("aggressive"@.len() == 10);
            assert("conservative"@.len() == 12);
        }
        let t = trim(raw);
        if crate::utils::str_eq(t, "manual") {
            Ok(FundingMethod::Manual)
        } else if crate::utils::str_eq(t, "aggressive") {
            Ok(FundingMethod::Aggressive)
        } else if crate::utils::str_eq(t, "conservative") {
            Ok(FundingMethod::Conservative)
        } else {
            Err(
                ParseError::new().set_message("this funding method doesn't exist").set_context(
                    raw,
                ),
            )
        }
    }
}

/// A budget bucket: a target amount under a due-date policy, with what
/// has been saved toward the current and the following period.
#[derive(Clone, Debug)]
pub struct Envelope {
    /// The envelope's name, unique within its account.
    pub name: String,
    /// The target amount to save each period.
    pub amount: Amount,
    /// Whether the envelope is an expense bucket or a savings goal.
    pub envelope_type: EnvelopeType,
    /// The companion accounts whose postings drive automatic transfers.
    pub auto_accounts: Vec<String>,
    /// When the envelope is due.
    pub freq: Frequency,
    /// How the envelope fills automatically.
    pub funding: FundingMethod,
    /// A fixed due date that overrides earlier computed ones.
    pub starting_date: Option<Date>,
    /// The amount saved up for the next due date.
    pub next_amount: Amount,
    /// The amount saved up now.
    pub now_amount: Amount,
    /// The name of the account this envelope pertains to.
    pub parent_account: String,
    /// The last date at which this envelope was affected.
    pub last_transaction_date: Option<Date>,
}

/// The changing part of an envelope as a plain value: the two balances
/// and the last transaction date.
pub struct EnvState {
    /// What is saved for the current period.
    pub now: int,
    /// What is saved for the following period.
    pub next: int,
    /// The date of the last transaction that touched the envelope.
    pub last: Option<Date>,
}

/// What applying one amount does to an envelope's state: spending
/// (negative) always leaves the current period's balance; funding
/// (positive) goes to the current period while the date lies before the
/// last due date, and to the next period otherwise or when no last due
/// date exists. The transaction date is recorded in every case.
pub open spec fn spec_apply(st: EnvState, mag: int, date: Date, ld: Option<Date>) -> EnvState {
    let st2 = if mag < 0 {
        EnvState { now: st.now + mag, next: st.next, last: st.last }
    } else if mag > 0 {
        match ld {
            Some(d) => if date.index() < d.index() {
                EnvState { now: st.now + mag, next: st.next, last: st.last }
            } else {
                EnvState { now: st.now, next: st.next + mag, last: st.last }
            },
            None => EnvState { now: st.now, next: st.next + mag, last: st.last },
        }
    } else {
        st
    };
    EnvState { now: st2.now, next: st2.next, last: Some(date) }
}

/// True where applying the amount stays within what the magnitude's
/// machine type can count.
pub open spec fn apply_fits(st: EnvState, mag: int, date: Date, ld: Option<Date>) -> bool {
    let st2 = spec_apply(st, mag, date, ld);
    &&& i64::MIN <= st2.now <= i64::MAX
    &&& i64::MIN <= st2.next <= i64::MAX
}

/// The relation between an envelope, a day "today", and the envelope's
/// next due date: the frequency's next due date, overridden by the
/// starting date where that lies later, and standing in for it where
/// the frequency has none.
pub open spec fn env_next_due_matches(env: Envelope, today: Date, r: Option<Date>) -> bool {
    match env.starting_date {
        None => next_due_matches(env.freq, today, r),
        Some(sd) => exists|fr: Option<Date>|
            #[trigger] next_due_matches(env.freq, today, fr) && r == (match fr {
                None => Some(sd),
                Some(fd) => Some(
                    if fd.index() >= sd.index() {
                        fd
                    } else {
                        sd
                    },
                ),
            }),
    }
}

impl Envelope {
    /// The well-formedness every envelope keeps: a supported frequency
    /// and dates, and both balances in the target's currency.
    pub open spec fn wf(self) -> bool {
        &&& self.freq.is_valid()
        &&& (self.starting_date matches Some(d) ==> d.is_valid())
        &&& (self.last_transaction_date matches Some(d) ==> d.is_valid())
        &&& spec_symbol(self.now_amount.symbol) == spec_symbol(self.amount.symbol)
        &&& spec_symbol(self.next_amount.symbol) == spec_symbol(self.amount.symbol)
    }

    /// The envelope's changing state as a plain value.
    pub open spec fn state(self) -> EnvState {
        EnvState {
            now: self.now_amount.mag as int,
            next: self.next_amount.mag as int,
            last: self.last_transaction_date,
        }
    }

    /// True where everything but the changing state is the same in both
    /// envelopes: what processing an entry never touches.
    pub open spec fn same_shape(self, other: Envelope) -> bool {
        &&& self.name == other.name
        &&& self.amount == other.amount
        &&& self.envelope_type == other.envelope_type
        &&& self.auto_accounts == other.auto_accounts
        &&& self.freq == other.freq
        &&& self.funding == other.funding
        &&& self.starting_date == other.starting_date
        &&& self.parent_account == other.parent_account
        &&& spec_symbol(self.now_amount.symbol) == spec_symbol(other.now_amount.symbol)
        &&& spec_symbol(self.next_amount.symbol) == spec_symbol(other.next_amount.symbol)
    }

    /// The envelope's name.
    pub fn get_name(&self) -> (r: &str)
        ensures
            r@ == self.name@,
    {
        self.name.as_str()
    }

    /// Whether the envelope is an expense bucket or a savings goal.
    pub fn get_type(&self) -> (r: &EnvelopeType)
        ensures
            r == &self.envelope_type,
    {
        &self.envelope_type
    }

    /// When the envelope is due.
    pub fn get_freq(&self) -> (r: &Frequency)
        ensures
            r == &self.freq,
    {
        &self.freq
    }

    /// The amount saved up for the next due date.
    pub fn get_next_amount(&self) -> (r: &Amount)
        ensures
            r == &self.next_amount,
    {
        &self.next_amount
    }

    /// The amount saved up now.
    pub fn get_now_amount(&self) -> (r: &Amount)
        ensures
            r == &self.now_amount,
    {
        &self.now_amount
    }

    /// The envelope's next due date relative to `today`: the
    /// frequency's, overridden by the starting date where that lies
    /// later or where the frequency has none.
    pub fn get_next_due_date(&self, today: &Date) -> (r: Option<Date>)
        requires
            self.wf(),
            today.is_valid(),
        ensures
            env_next_due_matches(*self, *today, r),
            r matches Some(nd) ==> nd.is_valid(),
    {
        match &self.starting_date {
            None => self.freq.get_next_due_date(today),
            Some(sd) => {
                let fr = self.freq.get_next_due_date(today);
                let result = match fr {
                    None => Some(*sd),
                    Some(fd) => {
                        if fd.day_number() >= sd.day_number() {
                            Some(fd)
                        } else {
                            Some(*sd)
                        }
                    },
                };
                proof {
                    assert(next_due_matches(self.freq, *today, fr));
                }
                result
            },
        }
    }

    /// Applies one amount to the envelope's balances for the given
    /// transaction date, against the last due date `ld`: exactly the
    /// step `spec_apply` describes. A balance past what the magnitude's
    /// machine type can count is refused, and the envelope is then
    /// unchanged.
    fn apply_amount(&mut self, amount: &Amount, date: &Date, ld: &Option<Date>) -> (r: Result<
        (),
        ProcessingError,
    >)
        requires
            old(self).wf(),
            spec_symbol(amount.symbol) == spec_symbol(old(self).amount.symbol),
            date.is_valid(),
            ld matches Some(d) ==> d.is_valid(),
        ensures
            final(self).wf(),
            final(self).same_shape(*old(self)),
            apply_fits(old(self).state(), amount.mag as int, *date, *ld) ==> (r is Ok
                && final(self).state() == spec_apply(
                old(self).state(),
                amount.mag as int,
                *date,
                *ld,
            )),
            !apply_fits(old(self).state(), amount.mag as int, *date, *ld) ==> (r is Err
                && *final(self) == *old(self)),
    {
        if amount.mag < 0 {
            match self.now_amount.mag.checked_add(amount.mag) {
                Some(m) => {
                    self.now_amount = Amount { mag: m, symbol: clone_symbol(&self.now_amount.symbol) };
                },
                None => {
                    return Err(
                        ProcessingError::new().set_message(
                            "an envelope's balance grew past what this build can count",
                        ),
                    );
                },
            }
        } else if amount.mag > 0 {
            let to_now = match ld {
                Some(d) => date.is_before(d),
                None => false,
            };
            if to_now {
                match self.now_amount.mag.checked_add(amount.mag) {
                    Some(m) => {
                        self.now_amount = Amount {
                            mag: m,
                            symbol: clone_symbol(&self.now_amount.symbol),
                        };
                    },
                    None => {
                        return Err(
                            ProcessingError::new().set_message(
                                "an envelope's balance grew past what this build can count",
                            ),
                        );
                    },
                }
            } else {
                match self.next_amount.mag.checked_add(amount.mag) {
                    Some(m) => {
                        self.next_amount = Amount {
                            mag: m,
                            symbol: clone_symbol(&self.next_amount.symbol),
                        };
                    },
                    None => {
                        return Err(
                            ProcessingError::new().set_message(
                                "an envelope's balance grew past what this build can count",
                            ),
                        );
                    },
                }
            }
        }
        self.last_transaction_date = Some(*date);
        Ok(())
    }
}

/// The magnitude an automatic fill (or drain) moves: zero when the
/// envelope already transacted
/// today, has no due date, or is filled by hand. Aggressive funding
/// moves as much as the target, the available balance and the room left
/// until the target allow; conservative funding spreads the room left
/// evenly across the days until the due date. The result never leaves
/// the envelope with a negative total, never takes money while the
/// account has any available, and never gives money while the account
/// is overdrawn.
pub open spec fn spec_filling_mag(
    target: int,
    now: int,
    next: int,
    funding: FundingMethod,
    last: Option<Date>,
    today: Date,
    nd: Option<Date>,
    avail: int,
) -> int {
    if last == Some(today) {
        0
    } else {
        match nd {
            None => 0,
            Some(due) => {
                let remaining = target - next;
                let total = now + next;
                match funding {
                    FundingMethod::Manual => 0,
                    FundingMethod::Aggressive => clamp_fill(
                        min3(target, avail, remaining),
                        total,
                        avail,
                    ),
                    FundingMethod::Conservative => {
                        let days = due.index() - today.index();
                        let daily = if days <= 0 {
                            remaining
                        } else {
                            trunc_div(remaining, days)
                        };
                        clamp_fill(min3(daily, avail, remaining), total, avail)
                    },
                }
            },
        }
    }
}

/// The smaller of three numbers.
pub open spec fn min3(a: int, b: int, c: int) -> int {
    if a <= b && a <= c {
        a
    } else if b <= c {
        b
    } else {
        c
    }
}

/// Clamps a candidate fill: never below the negated total (no negative
/// envelope balances); then never negative while the account has money
/// available, and never positive while it is overdrawn.
pub open spec fn clamp_fill(x: int, total: int, avail: int) -> int {
    let b = if x >= -total {
        x
    } else {
        -total
    };
    if avail >= 0 {
        if b >= 0 {
            b
        } else {
            0
        }
    } else {
        if b <= 0 {
            b
        } else {
            0
        }
    }
}

impl Envelope {
    /// The amount an automatic fill moves today, given the account's
    /// available balance in the envelope's currency: exactly the value
    /// `spec_filling_mag` describes for the envelope's next due date. A
    /// value past what the magnitude's machine type can count is
    /// refused.
    fn get_filling_amount(&self, account_available_amount: &Amount, today: &Date) -> (r: Result<
        Amount,
        ProcessingError,
    >)
        requires
            self.wf(),
            today.is_valid(),
            spec_symbol(account_available_amount.symbol) == spec_symbol(self.amount.symbol),
        ensures
            forall|nd: Option<Date>|
                #[trigger] env_next_due_matches(*self, *today, nd) ==> ({
                    let m = spec_filling_mag(
                        self.amount.mag as int,
                        self.now_amount.mag as int,
                        self.next_amount.mag as int,
                        self.funding,
                        self.last_transaction_date,
                        *today,
                        nd,
                        account_available_amount.mag as int,
                    );
                    &&& i64::MIN <= m <= i64::MAX ==> (r matches Ok(a) && a.mag == m
                        && spec_symbol(a.symbol) == spec_symbol(self.amount.symbol))
                    &&& !(i64::MIN <= m <= i64::MAX) ==> r is Err
                }),
    {
        let next_due = self.get_next_due_date(today);
        let transacted_today = match &self.last_transaction_date {
            Some(d) => *d == *today,
            None => false,
        };
        let mag128: i128 = if transacted_today {
            0
        } else {
            match &next_due {
                None => 0,
                Some(due) => {
                    let remaining: i128 = self.amount.mag as i128 - self.next_amount.mag as i128;
                    let total: i128 = self.now_amount.mag as i128 + self.next_amount.mag as i128;
                    let avail: i128 = account_available_amount.mag as i128;
                    match self.funding {
                        FundingMethod::Manual => 0,
                        FundingMethod::Aggressive => clamp_fill_i128(
                            min3_i128(self.amount.mag as i128, avail, remaining),
                            total,
                            avail,
                        ),
                        FundingMethod::Conservative => {
                            let days: i128 = due.day_number() as i128 - today.day_number() as i128;
                            let daily: i128 = if days <= 0 {
                                remaining
                            } else {
                                trunc_div_i128_small(remaining, days as i64)
                            };
                            clamp_fill_i128(min3_i128(daily, avail, remaining), total, avail)
                        },
                    }
                },
            }
        };
        if -0x8000000000000000i128 <= mag128 && mag128 <= 0x7fffffffffffffffi128 {
            Ok(Amount { mag: mag128 as i64, symbol: clone_symbol(&self.amount.symbol) })
        } else {
            Err(
                ProcessingError::new().set_message(
                    "an envelope fill grew past what this build can count",
                ),
            )
        }
    }

    /// Returns a posting with this Envelope's fill amount for the day,
    /// addressed to the envelope. The pool is the account's available
    /// value, from which the envelope's own currency is read.
    pub fn get_filling_posting(&self, account_available_value: &AmountPool, today: &Date) -> (r:
        Result<EnvelopePosting, ProcessingError>)
        requires
            self.wf(),
            today.is_valid(),
            account_available_value.wf(),
        ensures
            forall|nd: Option<Date>|
                #[trigger] env_next_due_matches(*self, *today, nd) ==> ({
                    let m = spec_filling_mag(
                        self.amount.mag as int,
                        self.now_amount.mag as int,
                        self.next_amount.mag as int,
                        self.funding,
                        self.last_transaction_date,
                        *today,
                        nd,
                        spec_only(account_available_value@, spec_symbol(self.amount.symbol)),
                    );
                    &&& i64::MIN <= m <= i64::MAX ==> (r matches Ok(p) && p.account_name@
                        == self.parent_account@ && p.envelope_name@ == self.name@ && p.amount.mag
                        == m && spec_symbol(p.amount.symbol) == spec_symbol(self.amount.symbol))
                    &&& !(i64::MIN <= m <= i64::MAX) ==> r is Err
                }),
    {
        let available = Amount {
            mag: account_available_value.only(&self.amount.symbol).mag,
            symbol: clone_symbol(&self.amount.symbol),
        };
        match self.get_filling_amount(&available, today) {
            Ok(amount) => Ok(
                EnvelopePosting::new(self.parent_account.clone(), amount, self.name.clone()),
            ),
            Err(e) => Err(e),
        }
    }
}

/// What the explicit envelope postings of an entry do to an envelope's
/// state, applied in order: each posting addressed to this envelope
/// (parent account and envelope name both matching) applies its amount.
/// `None` where a matching posting carries another currency, or where a
/// balance leaves what the magnitude's machine type can count.
pub open spec fn fold_manual(
    postings: Seq<PostingView>,
    k: int,
    st: EnvState,
    parent: Seq<char>,
    name: Seq<char>,
    env_sym: Option<Seq<char>>,
    date: Date,
    ld: Option<Date>,
) -> Option<EnvState>
    decreases postings.len() - k when 0 <= k <= postings.len()
{
    if k >= postings.len() {
        Some(st)
    } else {
        match postings[k] {
            PostingView::Envelope(e) => {
                if e.account_name == parent && e.envelope_name == name {
                    if e.amount.symbol != env_sym {
                        None
                    } else if apply_fits(st, e.amount.mag, date, ld) {
                        fold_manual(
                            postings,
                            k + 1,
                            spec_apply(st, e.amount.mag, date, ld),
                            parent,
                            name,
                            env_sym,
                            date,
                            ld,
                        )
                    } else {
                        None
                    }
                } else {
                    fold_manual(postings, k + 1, st, parent, name, env_sym, date, ld)
                }
            },
            _ => fold_manual(postings, k + 1, st, parent, name, env_sym, date, ld),
        }
    }
}

/// The number of postings from `k` on that address the account `parent`.
pub open spec fn count_parent_postings(postings: Seq<PostingView>, k: int, parent: Seq<char>) -> int
    decreases postings.len() - k when 0 <= k <= postings.len()
{
    if k >= postings.len() {
        0
    } else {
        (if postings[k].account() == parent {
            1int
        } else {
            0int
        }) + count_parent_postings(postings, k + 1, parent)
    }
}

/// The number of postings from `k` on that address a companion account:
/// one of `autos`, the parent account taking priority.
pub open spec fn count_auto_postings(
    postings: Seq<PostingView>,
    k: int,
    parent: Seq<char>,
    autos: Seq<Seq<char>>,
) -> int
    decreases postings.len() - k when 0 <= k <= postings.len()
{
    if k >= postings.len() {
        0
    } else {
        (if postings[k].account() != parent && autos.contains(postings[k].account()) {
            1int
        } else {
            0int
        }) + count_auto_postings(postings, k + 1, parent, autos)
    }
}

/// The magnitude a posting contributes to inference, in the envelope's
/// currency: its own amount (or the entry's inferred blank amount) where
/// the currency matches; otherwise, for an envelope of the native
/// currency, the posting's native worth. `None` where no such reading
/// exists — a foreign-currency envelope cannot receive converted
/// amounts at all.
pub open spec fn infer_value(
    p: PostingView,
    blank: Option<AmountView>,
    env_sym: Option<Seq<char>>,
) -> Option<int> {
    let a = match p.amount() {
        Some(x) => Some(x),
        None => blank,
    };
    match a {
        None => None,
        Some(av) => if av.symbol == env_sym {
            Some(av.mag)
        } else if env_sym is Some {
            None
        } else {
            p.native_value()
        },
    }
}

/// The two sides of inference summed from `k` on: the contributions of
/// postings on the parent account, and of postings on the companion
/// accounts. `None` where any posting's contribution has no reading.
pub open spec fn infer_sums(
    postings: Seq<PostingView>,
    k: int,
    blank: Option<AmountView>,
    env_sym: Option<Seq<char>>,
    parent: Seq<char>,
    autos: Seq<Seq<char>>,
) -> Option<(int, int)>
    decreases postings.len() - k when 0 <= k <= postings.len()
{
    if k >= postings.len() {
        Some((0, 0))
    } else {
        match infer_value(postings[k], blank, env_sym) {
            None => None,
            Some(v) => {
                match infer_sums(postings, k + 1, blank, env_sym, parent, autos) {
                    None => None,
                    Some(rest) => {
                        if postings[k].account() == parent {
                            Some((rest.0 + v, rest.1))
                        } else if autos.contains(postings[k].account()) {
                            Some((rest.0, rest.1 + v))
                        } else {
                            Some(rest)
                        }
                    },
                }
            },
        }
    }
}

/// The names of an envelope's companion accounts as plain values.
pub open spec fn auto_views(env: Envelope) -> Seq<Seq<char>> {
    env.auto_accounts@.map_values(|a: String| a@)
}

/// What inference does to an envelope for one entry: nothing without at
/// least one posting on the parent account and one on a companion
/// account; otherwise the amount moved is the companion side's total
/// capped by the parent side's absolute total, signed by the parent
/// side, and applied as `spec_apply` describes — when it is zero,
/// nothing moves at all. `None` where a contribution has no reading,
/// where the entry's blank amount cannot be inferred, or where a value
/// leaves what the magnitude's machine type can count.
pub open spec fn infer_outcome(
    env: Envelope,
    postings: Seq<PostingView>,
    date: Date,
    ld: Option<Date>,
) -> Option<EnvState> {
    let parent = env.parent_account@;
    let autos = auto_views(env);
    let env_sym = spec_symbol(env.amount.symbol);
    if count_parent_postings(postings, 0, parent) < 1 || count_auto_postings(
        postings,
        0,
        parent,
        autos,
    ) < 1 {
        Some(env.state())
    } else if crate::entry::has_blank(postings) && crate::entry::blank_outcome(postings)
        is None {
        None
    } else {
        let blank = if crate::entry::has_blank(postings) {
            crate::entry::blank_outcome(postings)->0
        } else {
            None
        };
        match infer_sums(postings, 0, blank, env_sym, parent, autos) {
            None => None,
            Some(sums) => {
                let self_sum = sums.0;
                let auto_sum = sums.1;
                let abs_self = if self_sum < 0 {
                    -self_sum
                } else {
                    self_sum
                };
                let abs_min = if auto_sum <= abs_self {
                    auto_sum
                } else {
                    abs_self
                };
                if abs_min == 0 {
                    Some(env.state())
                } else {
                    let mag = if self_sum < 0 {
                        -abs_min
                    } else {
                        abs_min
                    };
                    if i64::MIN <= mag <= i64::MAX && apply_fits(env.state(), mag, date, ld) {
                        Some(spec_apply(env.state(), mag, date, ld))
                    } else {
                        None
                    }
                }
            },
        }
    }
}

/// True where both values name the same day, or neither names one:
/// what the envelope's behaviour reads of a last due date.
pub open spec fn same_due(ld1: Option<Date>, ld2: Option<Date>) -> bool {
    match ld1 {
        None => ld2 is None,
        Some(d1) => ld2 matches Some(d2) && d1.index() == d2.index(),
    }
}

/// A frequency's last due date is determined up to its day: any two
/// values the relation admits name the same day.
pub proof fn lemma_last_due_unique(f: Frequency, today: Date, ld1: Option<Date>, ld2: Option<Date>)
    requires
        last_due_matches(f, today, ld1),
        last_due_matches(f, today, ld2),
    ensures
        same_due(ld1, ld2),
{
}

/// A frequency's next due date is determined up to its day: any two
/// values the relation admits name the same day.
pub proof fn lemma_next_due_unique(f: Frequency, today: Date, nd1: Option<Date>, nd2: Option<Date>)
    requires
        next_due_matches(f, today, nd1),
        next_due_matches(f, today, nd2),
    ensures
        same_due(nd1, nd2),
{
}

/// An envelope's next due date is determined up to its day, starting
/// date and all: any two values the relation admits name the same day.
pub proof fn lemma_env_next_due_unique(
    env: Envelope,
    today: Date,
    nd1: Option<Date>,
    nd2: Option<Date>,
)
    requires
        env_next_due_matches(env, today, nd1),
        env_next_due_matches(env, today, nd2),
    ensures
        same_due(nd1, nd2),
{
    match env.starting_date {
        None => {
            lemma_next_due_unique(env.freq, today, nd1, nd2);
        },
        Some(sd) => {
            let fr1 = choose|fr: Option<Date>|
                #[trigger] next_due_matches(env.freq, today, fr) && nd1 == (match fr {
                    None => Some(sd),
                    Some(fd) => Some(
                        if fd.index() >= sd.index() {
                            fd
                        } else {
                            sd
                        },
                    ),
                });
            let fr2 = choose|fr: Option<Date>|
                #[trigger] next_due_matches(env.freq, today, fr) && nd2 == (match fr {
                    None => Some(sd),
                    Some(fd) => Some(
                        if fd.index() >= sd.index() {
                            fd
                        } else {
                            sd
                        },
                    ),
                });
            lemma_next_due_unique(env.freq, today, fr1, fr2);
        },
    }
}

/// Applying an amount reads the last due date only through its day, so
/// two values naming the same day apply alike.
proof fn lemma_apply_same_due(st: EnvState, mag: int, date: Date, ld1: Option<Date>, ld2: Option<
    Date,
>)
    requires
        same_due(ld1, ld2),
    ensures
        spec_apply(st, mag, date, ld1) == spec_apply(st, mag, date, ld2),
        apply_fits(st, mag, date, ld1) == apply_fits(st, mag, date, ld2),
{
}

/// The manual fold reads the last due date only through its day.
proof fn lemma_fold_manual_same_due(
    postings: Seq<PostingView>,
    k: int,
    st: EnvState,
    parent: Seq<char>,
    name: Seq<char>,
    env_sym: Option<Seq<char>>,
    date: Date,
    ld1: Option<Date>,
    ld2: Option<Date>,
)
    requires
        0 <= k <= postings.len(),
        same_due(ld1, ld2),
    ensures
        fold_manual(postings, k, st, parent, name, env_sym, date, ld1) == fold_manual(
            postings,
            k,
            st,
            parent,
            name,
            env_sym,
            date,
            ld2,
        ),
    decreases postings.len() - k,
{
    if k < postings.len() {
        match postings[k] {
            PostingView::Envelope(e) => {
                if e.account_name == parent && e.envelope_name == name && e.amount.symbol
                    == env_sym {
                    lemma_apply_same_due(st, e.amount.mag, date, ld1, ld2);
                    if apply_fits(st, e.amount.mag, date, ld1) {
                        lemma_fold_manual_same_due(
                            postings,
                            k + 1,
                            spec_apply(st, e.amount.mag, date, ld1),
                            parent,
                            name,
                            env_sym,
                            date,
                            ld1,
                            ld2,
                        );
                    }
                } else {
                    lemma_fold_manual_same_due(
                        postings,
                        k + 1,
                        st,
                        parent,
                        name,
                        env_sym,
                        date,
                        ld1,
                        ld2,
                    );
                }
            },
            _ => {
                lemma_fold_manual_same_due(postings, k + 1, st, parent, name, env_sym, date, ld1, ld2);
            },
        }
    }
}

/// Inference reads the last due date only through its day.
proof fn lemma_infer_same_due(
    env: Envelope,
    postings: Seq<PostingView>,
    date: Date,
    ld1: Option<Date>,
    ld2: Option<Date>,
)
    requires
        same_due(ld1, ld2),
    ensures
        infer_outcome(env, postings, date, ld1) == infer_outcome(env, postings, date, ld2),
{
    let parent = env.parent_account@;
    let autos = auto_views(env);
    let env_sym = spec_symbol(env.amount.symbol);
    if !(count_parent_postings(postings, 0, parent) < 1 || count_auto_postings(
        postings,
        0,
        parent,
        autos,
    ) < 1) && !(crate::entry::has_blank(postings) && crate::entry::blank_outcome(postings)
        is None) {
        let blank = if crate::entry::has_blank(postings) {
            crate::entry::blank_outcome(postings)->0
        } else {
            None
        };
        match infer_sums(postings, 0, blank, env_sym, parent, autos) {
            None => {},
            Some(sums) => {
                let self_sum = sums.0;
                let auto_sum = sums.1;
                let abs_self = if self_sum < 0 {
                    -self_sum
                } else {
                    self_sum
                };
                let abs_min = if auto_sum <= abs_self {
                    auto_sum
                } else {
                    abs_self
                };
                if abs_min != 0 {
                    let mag = if self_sum < 0 {
                        -abs_min
                    } else {
                        abs_min
                    };
                    lemma_apply_same_due(env.state(), mag, date, ld1, ld2);
                }
            },
        }
    }
}

/// True where processing the entry succeeds for the envelope: its
/// manual fold, or its inference, has an outcome for the envelope's
/// last due date.
pub open spec fn env_entry_ok(env: Envelope, postings: Seq<PostingView>, date: Date, today: Date) -> bool {
    exists|ld: Option<Date>|
        #[trigger] last_due_matches(env.freq, today, ld) && (if crate::entry::has_envelope(
            postings,
        ) {
            fold_manual(
                postings,
                0,
                env.state(),
                env.parent_account@,
                env.name@,
                spec_symbol(env.amount.symbol),
                date,
                ld,
            ) is Some
        } else {
            infer_outcome(env, postings, date, ld) is Some
        })
}

impl Envelope {
    /// Reads the entry and applies its changes to the envelope's
    /// balances. An entry with explicit envelope postings applies the
    /// ones addressed to this envelope, in order; any other entry goes
    /// through inference against the companion accounts, as
    /// `infer_outcome` describes. Either way the outcome is taken
    /// against the frequency's last due date for `today`.
    pub fn process_entry(&mut self, entry: &Entry, today: &Date) -> (r: Result<
        (),
        ProcessingError,
    >)
        requires
            old(self).wf(),
            today.is_valid(),
            entry.date.is_valid(),
            entry@.postings.len() <= 1000000000,
        ensures
            final(self).wf(),
            final(self).same_shape(*old(self)),
            crate::entry::has_envelope(entry@.postings) ==> exists|ld: Option<Date>|
                #[trigger] last_due_matches(old(self).freq, *today, ld) && (match fold_manual(
                    entry@.postings,
                    0,
                    old(self).state(),
                    old(self).parent_account@,
                    old(self).name@,
                    spec_symbol(old(self).amount.symbol),
                    entry@.date,
                    ld,
                ) {
                    Some(st) => r is Ok && final(self).state() == st,
                    None => r is Err,
                }),
            !crate::entry::has_envelope(entry@.postings) ==> exists|ld: Option<Date>|
                #[trigger] last_due_matches(old(self).freq, *today, ld) && (match infer_outcome(
                    *old(self),
                    entry@.postings,
                    entry@.date,
                    ld,
                ) {
                    Some(st) => r is Ok && final(self).state() == st,
                    None => r is Err,
                }),
            r is Ok <==> env_entry_ok(*old(self), entry@.postings, entry@.date, *today),
            !crate::entry::has_envelope(entry@.postings) ==> (r is Err ==> *final(self) == *old(
                self,
            )),
    {
        if entry.has_envelope_posting() {
            self.process_manual_postings(entry, today)
        } else {
            self.infer(entry, today)
        }
    }

    /// Applies the entry's envelope postings that are addressed to this
    /// envelope, in order.
    fn process_manual_postings(&mut self, entry: &Entry, today: &Date) -> (r: Result<
        (),
        ProcessingError,
    >)
        requires
            old(self).wf(),
            today.is_valid(),
            entry.date.is_valid(),
        ensures
            final(self).wf(),
            final(self).same_shape(*old(self)),
            exists|ld: Option<Date>|
                #[trigger] last_due_matches(old(self).freq, *today, ld) && (match fold_manual(
                    entry@.postings,
                    0,
                    old(self).state(),
                    old(self).parent_account@,
                    old(self).name@,
                    spec_symbol(old(self).amount.symbol),
                    entry@.date,
                    ld,
                ) {
                    Some(st) => r is Ok && final(self).state() == st,
                    None => r is Err,
                }),
            r is Ok <==> exists|ld: Option<Date>|
                #[trigger] last_due_matches(old(self).freq, *today, ld) && fold_manual(
                    entry@.postings,
                    0,
                    old(self).state(),
                    old(self).parent_account@,
                    old(self).name@,
                    spec_symbol(old(self).amount.symbol),
                    entry@.date,
                    ld,
                ) is Some,
    {
        let ld = self.freq.get_last_due_date(today);
        let date = *entry.get_date();
        proof {
            assert forall|ld2: Option<Date>|
                #[trigger] last_due_matches(self.freq, *today, ld2) implies fold_manual(
                entry@.postings,
                0,
                self.state(),
                self.parent_account@,
                self.name@,
                spec_symbol(self.amount.symbol),
                entry@.date,
                ld2,
            ) == fold_manual(
                entry@.postings,
                0,
                self.state(),
                self.parent_account@,
                self.name@,
                spec_symbol(self.amount.symbol),
                entry@.date,
                ld,
            ) by {
                lemma_last_due_unique(self.freq, *today, ld2, ld);
                lemma_fold_manual_same_due(
                    entry@.postings,
                    0,
                    self.state(),
                    self.parent_account@,
                    self.name@,
                    spec_symbol(self.amount.symbol),
                    entry@.date,
                    ld2,
                    ld,
                );
            }
        }
        let n = entry.get_postings().len();
        let mut i: usize = 0;
        while i < n
            invariant
                0 <= i <= n,
                n == entry@.postings.len(),
                entry.postings@.len() == n,
                self.wf(),
                self.same_shape(*old(self)),
                self.parent_account == old(self).parent_account,
                self.name == old(self).name,
                self.freq == old(self).freq,
                spec_symbol(self.amount.symbol) == spec_symbol(old(self).amount.symbol),
                date == entry@.date,
                date.is_valid(),
                ld matches Some(d) ==> d.is_valid(),
                last_due_matches(old(self).freq, *today, ld),
                forall|ld2: Option<Date>|
                    #[trigger] last_due_matches(old(self).freq, *today, ld2) ==> fold_manual(
                        entry@.postings,
                        0,
                        old(self).state(),
                        old(self).parent_account@,
                        old(self).name@,
                        spec_symbol(old(self).amount.symbol),
                        date,
                        ld2,
                    ) == fold_manual(
                        entry@.postings,
                        0,
                        old(self).state(),
                        old(self).parent_account@,
                        old(self).name@,
                        spec_symbol(old(self).amount.symbol),
                        date,
                        ld,
                    ),
                fold_manual(
                    entry@.postings,
                    0,
                    old(self).state(),
                    old(self).parent_account@,
                    old(self).name@,
                    spec_symbol(old(self).amount.symbol),
                    date,
                    ld,
                ) == fold_manual(
                    entry@.postings,
                    i as int,
                    self.state(),
                    old(self).parent_account@,
                    old(self).name@,
                    spec_symbol(old(self).amount.symbol),
                    date,
                    ld,
                ),
            decreases n - i,
        {
            match &entry.get_postings()[i] {
                crate::posting::Posting::Envelope(ep) => {
                    proof {
                        assert(entry@.postings[i as int] == crate::posting::PostingView::Envelope(
                            ep@,
                        ));
                    }
                    let is_mine = crate::utils::str_eq(
                        ep.get_account_name().as_str(),
                        self.parent_account.as_str(),
                    ) && crate::utils::str_eq(ep.get_envelope_name().as_str(), self.name.as_str());
                    if is_mine {
                        if !symbols_match(&ep.get_amount().symbol, &self.amount.symbol) {
                            return Err(
                                ProcessingError::new().set_message(
                                    "an envelope posting carries a currency that is not the envelope's",
                                ),
                            );
                        }
                        let amount = ep.get_amount().duplicate();
                        match self.apply_amount(&amount, &date, &ld) {
                            Ok(()) => {},
                            Err(e) => {
                                return Err(e);
                            },
                        }
                    }
                },
                crate::posting::Posting::Classic(_) => {},
            }
            i = i + 1;
        }
        Ok(())
    }
}

/// Decides whether one of the strings holds the same characters as `s`.
fn contains_str(v: &Vec<String>, s: &str) -> (r: bool)
    ensures
        r == v@.map_values(|a: String| a@).contains(s@),
{
    let ghost views = v@.map_values(|a: String| a@);
    let n = v.len();
    let mut i: usize = 0;
    while i < n
        invariant
            0 <= i <= n,
            n == v@.len(),
            views == v@.map_values(|a: String| a@),
            forall|j: int| 0 <= j < i ==> views[j] != s@,
        decreases n - i,
    {
        if crate::utils::str_eq(v[i].as_str(), s) {
            proof {
                assert(views[i as int] == s@);
            }
            return true;
        }
        i = i + 1;
    }
    proof {
        assert(forall|j: int| 0 <= j < views.len() ==> views[j] != s@);
    }
    false
}

impl Envelope {
    /// Moves money by inference: postings between the parent account
    /// and the companion accounts drive the envelope without an
    /// explicit envelope posting, exactly as `infer_outcome` describes.
    fn infer(&mut self, entry: &Entry, today: &Date) -> (r: Result<(), ProcessingError>)
        requires
            old(self).wf(),
            today.is_valid(),
            entry.date.is_valid(),
            entry@.postings.len() <= 1000000000,
        ensures
            final(self).wf(),
            final(self).same_shape(*old(self)),
            exists|ld: Option<Date>|
                #[trigger] last_due_matches(old(self).freq, *today, ld) && (match infer_outcome(
                    *old(self),
                    entry@.postings,
                    entry@.date,
                    ld,
                ) {
                    Some(st) => r is Ok && final(self).state() == st,
                    None => r is Err,
                }),
            r is Ok <==> exists|ld: Option<Date>|
                #[trigger] last_due_matches(old(self).freq, *today, ld) && infer_outcome(
                    *old(self),
                    entry@.postings,
                    entry@.date,
                    ld,
                ) is Some,
            r is Err ==> *final(self) == *old(self),
    {
        let ld = self.freq.get_last_due_date(today);
        let date = *entry.get_date();
        proof {
            assert forall|ld2: Option<Date>|
                #[trigger] last_due_matches(self.freq, *today, ld2) implies infer_outcome(
                *self,
                entry@.postings,
                entry@.date,
                ld2,
            ) == infer_outcome(*self, entry@.postings, entry@.date, ld) by {
                lemma_last_due_unique(self.freq, *today, ld2, ld);
                lemma_infer_same_due(*self, entry@.postings, entry@.date, ld2, ld);
            }
        }
        let ghost postings = entry@.postings;
        let ghost parent = self.parent_account@;
        let ghost autos = auto_views(*self);
        let ghost env_sym = spec_symbol(self.amount.symbol);
        let n = entry.get_postings().len();
        let mut self_count: usize = 0;
        let mut auto_count: usize = 0;
        let mut i: usize = 0;
        while i < n
            invariant
                0 <= i <= n,
                n == entry@.postings.len(),
                entry.postings@.len() == n,
                *self == *old(self),
                old(self).wf(),
                postings == entry@.postings,
                parent == self.parent_account@,
                autos == auto_views(*self),
                self_count <= i,
                auto_count <= i,
                count_parent_postings(postings, 0, parent) == self_count
                    + count_parent_postings(postings, i as int, parent),
                count_auto_postings(postings, 0, parent, autos) == auto_count
                    + count_auto_postings(postings, i as int, parent, autos),
                ld matches Some(d) ==> d.is_valid(),
                last_due_matches(old(self).freq, *today, ld),
                forall|ld2: Option<Date>|
                    #[trigger] last_due_matches(old(self).freq, *today, ld2) ==> infer_outcome(
                        *old(self),
                        entry@.postings,
                        entry@.date,
                        ld2,
                    ) == infer_outcome(*old(self), entry@.postings, entry@.date, ld),
            decreases n - i,
        {
            let acc = entry.get_postings()[i].get_account();
            if crate::utils::str_eq(acc.as_str(), self.parent_account.as_str()) {
                self_count = self_count + 1;
            } else if contains_str(&self.auto_accounts, acc.as_str()) {
                auto_count = auto_count + 1;
            }
            i = i + 1;
        }
        if self_count < 1 || auto_count < 1 {
            // Inference cannot run without both sides; that is not an error.
            return Ok(());
        }
        let has_blank = entry.has_blank_posting();
        let blank: Option<Amount> = if has_blank {
            match entry.get_blank_amount() {
                Ok(Some(b)) => Some(b),
                Ok(None) => None,
                Err(e) => {
                    return Err(e);
                },
            }
        } else {
            None
        };
        let ghost blankv: Option<AmountView> = match &blank {
            Some(b) => Some(b@),
            None => None,
        };
        proof {
            assert(blankv == (if crate::entry::has_blank(postings) {
                match crate::entry::blank_outcome(postings) {
                    Some(o) => o,
                    None => None,
                }
            } else {
                None::<AmountView>
            }));
        }
        let mut self_sum: i128 = 0;
        let mut auto_sum: i128 = 0;
        let mut i2: usize = 0;
        while i2 < n
            invariant
                0 <= i2 <= n,
                n == entry@.postings.len(),
                entry.postings@.len() == n,
                n <= 1000000000,
                *self == *old(self),
                old(self).wf(),
                today.is_valid(),
                date == entry@.date,
                date.is_valid(),
                ld matches Some(d) ==> d.is_valid(),
                last_due_matches(old(self).freq, *today, ld),
                postings == entry@.postings,
                parent == self.parent_account@,
                autos == auto_views(*self),
                env_sym == spec_symbol(self.amount.symbol),
                blank matches Some(b) ==> blankv == Some(b@),
                blank is None ==> blankv is None,
                count_parent_postings(postings, 0, parent) >= 1,
                count_auto_postings(postings, 0, parent, autos) >= 1,
                !(crate::entry::has_blank(postings) && crate::entry::blank_outcome(postings)
                    is None),
                blankv == (if crate::entry::has_blank(postings) {
                    match crate::entry::blank_outcome(postings) {
                        Some(o) => o,
                        None => None,
                    }
                } else {
                    None::<AmountView>
                }),
                -(i2 * 0x8000000000000000) <= self_sum <= i2 * 0x8000000000000000,
                -(i2 * 0x8000000000000000) <= auto_sum <= i2 * 0x8000000000000000,
                match infer_sums(postings, i2 as int, blankv, env_sym, parent, autos) {
                    Some(t) => infer_sums(postings, 0, blankv, env_sym, parent, autos) == Some(
                        (self_sum + t.0, auto_sum + t.1),
                    ),
                    None => infer_sums(postings, 0, blankv, env_sym, parent, autos) is None,
                },
                forall|ld2: Option<Date>|
                    #[trigger] last_due_matches(old(self).freq, *today, ld2) ==> infer_outcome(
                        *old(self),
                        entry@.postings,
                        entry@.date,
                        ld2,
                    ) == infer_outcome(*old(self), entry@.postings, entry@.date, ld),
            decreases n - i2,
        {
            let p = &entry.get_postings()[i2];
            let amount_opt = p.get_amount();
            let pair: (i64, bool) = match amount_opt {
                Some(a) => (a.mag, symbols_match(&a.symbol, &self.amount.symbol)),
                None => match &blank {
                    Some(b) => (b.mag, symbols_match(&b.symbol, &self.amount.symbol)),
                    None => {
                        proof {
                            assert(infer_value(postings[i2 as int], blankv, env_sym) is None);
                        }
                        return Err(
                            ProcessingError::new().set_message(
                                "how much money to move to or from an envelope cannot be inferred; a manual envelope posting with the correct amount is needed here",
                            ),
                        );
                    },
                },
            };
            let v: i64 = if pair.1 {
                pair.0
            } else if self.amount.symbol.is_some() {
                return Err(
                    ProcessingError::new().set_message(
                        "this envelope was set up with a currency that is not the native one, and these postings cannot be converted to it; money cannot be moved automatically here",
                    ),
                );
            } else {
                match p.get_original_native_value() {
                    Some(m) => m,
                    None => {
                        return Err(
                            ProcessingError::new().set_message(
                                "how much money to move to or from an envelope cannot be inferred; a manual envelope posting with the correct amount is needed here",
                            ),
                        );
                    },
                }
            };
            proof {
                assert(infer_value(postings[i2 as int], blankv, env_sym) == Some(v as int));
            }
            let acc = p.get_account();
            if crate::utils::str_eq(acc.as_str(), self.parent_account.as_str()) {
                self_sum = self_sum + v as i128;
            } else if contains_str(&self.auto_accounts, acc.as_str()) {
                auto_sum = auto_sum + v as i128;
            }
            i2 = i2 + 1;
        }
        let abs_self: i128 = if self_sum < 0 {
            -self_sum
        } else {
            self_sum
        };
        let abs_min: i128 = if auto_sum <= abs_self {
            auto_sum
        } else {
            abs_self
        };
        if abs_min == 0 {
            return Ok(());
        }
        let mag128: i128 = if self_sum < 0 {
            -abs_min
        } else {
            abs_min
        };
        if mag128 < -0x8000000000000000i128 || mag128 > 0x7fffffffffffffffi128 {
            return Err(
                ProcessingError::new().set_message(
                    "an inferred envelope transfer grew past what this build can count",
                ),
            );
        }
        let amount = Amount { mag: mag128 as i64, symbol: clone_symbol(&self.amount.symbol) };
        self.apply_amount(&amount, &date, &ld)
    }
}

/// The smaller of three wide machine integers.
fn min3_i128(a: i128, b: i128, c: i128) -> (r: i128)
    ensures
        r == min3(a as int, b as int, c as int),
{
    if a <= b && a <= c {
        a
    } else if b <= c {
        b
    } else {
        c
    }
}

/// Clamps a candidate fill, as `clamp_fill` describes, on wide machine
/// integers.
fn clamp_fill_i128(x: i128, total: i128, avail: i128) -> (r: i128)
    requires
        total > i128::MIN,
    ensures
        r == clamp_fill(x as int, total as int, avail as int),
{
    let b = if x >= -total {
        x
    } else {
        -total
    };
    if avail >= 0 {
        if b >= 0 {
            b
        } else {
            0
        }
    } else {
        if b <= 0 {
            b
        } else {
            0
        }
    }
}

/// Division of wide machine integers by a small positive divisor,
/// rounding toward zero.
fn trunc_div_i128_small(a: i128, b: i64) -> (r: i128)
    requires
        b > 0,
        a > i128::MIN,
    ensures
        r == trunc_div(a as int, b as int),
{
    if a >= 0 {
        ((a as u128) / (b as u128)) as i128
    } else {
        let neg = (-a) as u128;
        -((neg / (b as u128)) as i128)
    }
}

} // verus!
