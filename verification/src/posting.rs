//! Postings: the lines of an entry that move money.
//!
//! A classic posting addresses an account with an optional amount and
//! optional cost and balance assertions; an envelope posting moves money
//! between an account's envelope and its free balance. Each executable
//! type has a plain mathematical view used by the contracts.

use crate::amount::Amount;
use crate::amount::AmountView;
use crate::utils::trunc_div;
use vstd::prelude::*;

verus! {

/// How many fixed-point steps one currency unit holds: amounts carry
/// eight decimal digits of fraction.
pub const AMOUNT_SCALE: i64 = 100000000;

/// A cost assertion on a classic posting: the posting's value expressed
/// in another currency, either per unit or in total.
#[derive(Clone, Debug, PartialEq, Eq)]
pub enum Cost {
    /// The whole posting is worth the carried amount.
    TotalCost(Amount),
    /// Each unit of the posting's currency is worth the carried amount.
    UnitCost(Amount),
}

/// A cost assertion as a plain value.
pub enum CostView {
    /// The whole posting is worth the carried amount.
    Total(AmountView),
    /// Each unit is worth the carried amount.
    Unit(AmountView),
}

impl View for Cost {
    type V = CostView;

    open spec fn view(&self) -> CostView {
        match self {
            Cost::TotalCost(a) => CostView::Total(a@),
            Cost::UnitCost(a) => CostView::Unit(a@),
        }
    }
}

/// A posting against an account: an optional amount, and optional cost
/// and balance assertions.
#[derive(Clone, Debug, PartialEq, Eq)]
pub struct ClassicPosting {
    /// The amount moved, or `None` for a blank posting whose amount is inferred.
    pub amount: Option<Amount>,
    /// The account the posting addresses.
    pub account: String,
    /// The posting's worth in another currency, where one was asserted.
    pub cost_assertion: Option<Cost>,
    /// The account balance asserted alongside the posting, where one was.
    pub balance_assertion: Option<Amount>,
}

/// A classic posting as a plain value.
pub struct ClassicPostingView {
    /// The amount moved, or `None` for a blank posting.
    pub amount: Option<AmountView>,
    /// The account's name.
    pub account: Seq<char>,
    /// The cost assertion, where one was given.
    pub cost_assertion: Option<CostView>,
    /// The balance assertion, where one was given.
    pub balance_assertion: Option<AmountView>,
}

impl View for ClassicPosting {
    type V = ClassicPostingView;

    open spec fn view(&self) -> ClassicPostingView {
        ClassicPostingView {
            amount: match self.amount {
                Some(a) => Some(a@),
                None => None,
            },
            account: self.account@,
            cost_assertion: match self.cost_assertion {
                Some(c) => Some(c@),
                None => None,
            },
            balance_assertion: match self.balance_assertion {
                Some(b) => Some(b@),
                None => None,
            },
        }
    }
}

/// A posting that moves money between an account's envelope and its
/// free balance.
#[derive(Clone, Debug, PartialEq, Eq)]
pub struct EnvelopePosting {
    /// The account whose envelope is addressed.
    pub account_name: String,
    /// The envelope's name.
    pub envelope_name: String,
    /// The amount moved into (positive) or out of (negative) the envelope.
    pub amount: Amount,
}

/// An envelope posting as a plain value.
pub struct EnvelopePostingView {
    /// The account's name.
    pub account_name: Seq<char>,
    /// The envelope's name.
    pub envelope_name: Seq<char>,
    /// The amount moved.
    pub amount: AmountView,
}

impl View for EnvelopePosting {
    type V = EnvelopePostingView;

    open spec fn view(&self) -> EnvelopePostingView {
        EnvelopePostingView {
            account_name: self.account_name@,
            envelope_name: self.envelope_name@,
            amount: self.amount@,
        }
    }
}

impl EnvelopePosting {
    /// Builds an envelope posting from its three parts.
    pub fn new(account_name: String, amount: Amount, envelope_name: String) -> (p: Self)
        ensures
            p.account_name == account_name,
            p.envelope_name == envelope_name,
            p.amount == amount,
    {
        EnvelopePosting { account_name, envelope_name, amount }
    }

    /// Returns the name of the envelope associated with this posting.
    pub fn get_envelope_name(&self) -> (r: &String)
        ensures
            r == &self.envelope_name,
    {
        &self.envelope_name
    }

    /// Returns the account name associated with this posting.
    pub fn get_account_name(&self) -> (r: &String)
        ensures
            r == &self.account_name,
    {
        &self.account_name
    }

    /// Returns the amount associated with this posting.
    pub fn get_amount(&self) -> (r: &Amount)
        ensures
            r == &self.amount,
    {
        &self.amount
    }
}

impl Default for EnvelopePosting {
    /// A blank envelope posting: empty names and a zero native amount.
    fn default() -> (p: Self)
        ensures
            p.account_name@.len() == 0,
            p.envelope_name@.len() == 0,
            p.amount.mag == 0 && p.amount.symbol is None,
    {
        EnvelopePosting {
            account_name: String::new(),
            envelope_name: String::new(),
            amount: Amount::zero(),
        }
    }
}

/// One line of an entry: either a classic posting or an envelope posting.
#[derive(Clone, Debug, PartialEq, Eq)]
pub enum Posting {
    Classic(ClassicPosting),
    Envelope(EnvelopePosting),
}

/// A posting as a plain value.
pub enum PostingView {
    Classic(ClassicPostingView),
    Envelope(EnvelopePostingView),
}

impl View for Posting {
    type V = PostingView;

    open spec fn view(&self) -> PostingView {
        match self {
            Posting::Classic(c) => PostingView::Classic(c@),
            Posting::Envelope(e) => PostingView::Envelope(e@),
        }
    }
}

impl PostingView {
    /// The amount a posting carries: an envelope posting's always, a
    /// classic posting's where it is not blank.
    pub open spec fn amount(self) -> Option<AmountView> {
        match self {
            PostingView::Classic(c) => c.amount,
            PostingView::Envelope(e) => Some(e.amount),
        }
    }

    /// The account a posting addresses.
    pub open spec fn account(self) -> Seq<char> {
        match self {
            PostingView::Classic(c) => c.account,
            PostingView::Envelope(e) => e.account_name,
        }
    }

    /// True of blank postings: a classic posting with no amount.
    pub open spec fn is_blank(self) -> bool {
        self.amount() is None
    }

    /// The posting's worth in the native currency, taken from the
    /// posting itself: a native amount is its own worth; an amount in
    /// another currency is converted through a native cost assertion,
    /// total or per unit. `None` where no such reading exists, for every
    /// envelope posting, and where a per-unit conversion leaves what the
    /// magnitude's machine type can count.
    pub open spec fn native_value(self) -> Option<int> {
        match self {
            PostingView::Envelope(_) => None,
            PostingView::Classic(c) => match c.amount {
                None => None,
                Some(a) => if a.symbol is None {
                    Some(a.mag)
                } else {
                    match c.cost_assertion {
                        None => None,
                        Some(CostView::Total(b)) => if b.symbol is None {
                            Some(b.mag)
                        } else {
                            None
                        },
                        Some(CostView::Unit(b)) => if b.symbol is None {
                            let v = trunc_div(a.mag * b.mag, AMOUNT_SCALE as int);
                            if i64::MIN <= v <= i64::MAX {
                                Some(v)
                            } else {
                                None
                            }
                        } else {
                            None
                        },
                    }
                },
            },
        }
    }
}

impl Posting {
    /// Returns the Posting's Amount, where it has one.
    pub fn get_amount(&self) -> (r: Option<&Amount>)
        ensures
            r is Some <==> self@.amount() is Some,
            r matches Some(a) ==> self@.amount() == Some(a@),
    {
        match self {
            Posting::Envelope(e) => Some(&e.amount),
            Posting::Classic(c) => c.amount.as_ref(),
        }
    }

    /// Returns the Posting's account.
    pub fn get_account(&self) -> (r: &String)
        ensures
            r@ == self@.account(),
    {
        match self {
            Posting::Classic(c) => &c.account,
            Posting::Envelope(e) => &e.account_name,
        }
    }

    /// The posting's worth in the native currency, exactly as
    /// [`PostingView::native_value`] describes it.
    pub fn get_original_native_value(&self) -> (r: Option<i64>)
        ensures
            r is Some <==> self@.native_value() is Some,
            r matches Some(v) ==> self@.native_value() == Some(v as int),
    {
        match self {
            Posting::Envelope(_) => None,
            Posting::Classic(c) => c.get_original_native_value(),
        }
    }

    /// True of envelope postings.
    pub fn is_envelope(&self) -> (r: bool)
        ensures
            r == (self@ is Envelope),
    {
        match self {
            Posting::Envelope(_) => true,
            Posting::Classic(_) => false,
        }
    }

    /// True of classic postings.
    pub fn is_classic(&self) -> (r: bool)
        ensures
            r == (self@ is Classic),
    {
        match self {
            Posting::Classic(_) => true,
            Posting::Envelope(_) => false,
        }
    }

    /// A copy of the posting, field for field.
    pub fn duplicate(&self) -> (r: Posting)
        ensures
            r@ == self@,
    {
        match self {
            Posting::Classic(c) => Posting::Classic(c.duplicate()),
            Posting::Envelope(e) => Posting::Envelope(
                EnvelopePosting {
                    account_name: e.account_name.clone(),
                    envelope_name: e.envelope_name.clone(),
                    amount: e.amount.duplicate(),
                },
            ),
        }
    }
}

impl From<ClassicPosting> for Posting {
    fn from(p: ClassicPosting) -> (r: Self) {
        Posting::Classic(p)
    }
}

impl vstd::std_specs::convert::FromSpecImpl<ClassicPosting> for Posting {
    open spec fn obeys_from_spec() -> bool {
        true
    }

    open spec fn from_spec(p: ClassicPosting) -> Self {
        Posting::Classic(p)
    }
}

impl From<EnvelopePosting> for Posting {
    fn from(p: EnvelopePosting) -> (r: Self) {
        Posting::Envelope(p)
    }
}

impl vstd::std_specs::convert::FromSpecImpl<EnvelopePosting> for Posting {
    open spec fn obeys_from_spec() -> bool {
        true
    }

    open spec fn from_spec(p: EnvelopePosting) -> Self {
        Posting::Envelope(p)
    }
}

impl ClassicPosting {
    /// Builds a classic posting from its four parts.
    pub fn new(
        account: &str,
        amount: Option<Amount>,
        cost_assertion: Option<Cost>,
        balance_assertion: Option<Amount>,
    ) -> (p: Self)
        ensures
            p.account@ == account@,
            p.amount == amount,
            p.cost_assertion == cost_assertion,
            p.balance_assertion == balance_assertion,
    {
        ClassicPosting { account: account.to_owned(), amount, balance_assertion, cost_assertion }
    }

    /// A copy of the posting, field for field.
    pub fn duplicate(&self) -> (r: ClassicPosting)
        ensures
            r@ == self@,
    {
        let amount = match &self.amount {
            Some(a) => Some(a.duplicate()),
            None => None,
        };
        let cost_assertion = match &self.cost_assertion {
            Some(Cost::TotalCost(a)) => Some(Cost::TotalCost(a.duplicate())),
            Some(Cost::UnitCost(a)) => Some(Cost::UnitCost(a.duplicate())),
            None => None,
        };
        let balance_assertion = match &self.balance_assertion {
            Some(a) => Some(a.duplicate()),
            None => None,
        };
        ClassicPosting {
            amount,
            account: self.account.clone(),
            cost_assertion,
            balance_assertion,
        }
    }

    /// The posting's worth in the native currency, exactly as
    /// [`PostingView::native_value`] describes it for classic postings.
    pub fn get_original_native_value(&self) -> (r: Option<i64>)
        ensures
            r is Some <==> PostingView::Classic(self@).native_value() is Some,
            r matches Some(v) ==> PostingView::Classic(self@).native_value() == Some(v as int),
    {
        match &self.amount {
            None => None,
            Some(a) => {
                if a.symbol.is_none() {
                    Some(a.mag)
                } else {
                    match &self.cost_assertion {
                        None => None,
                        Some(Cost::TotalCost(b)) => {
                            if b.symbol.is_none() {
                                Some(b.mag)
                            } else {
                                None
                            }
                        },
                        Some(Cost::UnitCost(b)) => {
                            if b.symbol.is_none() {
                                proof {
                                    assert((a.mag as int) * (b.mag as int)
                                        <= 0x40000000000000000000000000000000 && (a.mag as int) * (
                                    b.mag as int) >= -0x40000000000000000000000000000000) by (nonlinear_arith)
                                        requires
                                            -0x8000000000000000 <= a.mag as int
                                                <= 0x7fffffffffffffff,
                                            -0x8000000000000000 <= b.mag as int
                                                <= 0x7fffffffffffffff,
                                    ;
                                }
                                let prod: i128 = a.mag as i128 * b.mag as i128;
                                let v: i128 = trunc_div_i128(prod, AMOUNT_SCALE as i128);
                                if i64::MIN as i128 <= v && v <= i64::MAX as i128 {
                                    Some(v as i64)
                                } else {
                                    None
                                }
                            } else {
                                None
                            }
                        },
                    }
                }
            },
        }
    }
}

/// Division of wide machine integers, rounding toward zero.
fn trunc_div_i128(a: i128, b: i128) -> (r: i128)
    requires
        b > 0,
        a > i128::MIN,
    ensures
        r == trunc_div(a as int, b as int),
{
    if a >= 0 {
        ((a as u128) / (b as u128)) as i128
    } else {
        let neg = (-a) as u128;
        -((neg / (b as u128)) as i128)
    }
}

} // verus!
