//! Plain-text renderings of the engine's values.
//!
//! Errors carry the entry they are about as a text snippet; this module
//! builds those snippets. Nothing here is part of the bookkeeping rules:
//! the texts are for human eyes, and no other code reads them back.

use crate::amount::Amount;
use crate::date::Date;
use crate::posting::AMOUNT_SCALE;
use crate::posting::Cost;
use crate::posting::Posting;
use vstd::prelude::*;

verus! {

/// The decimal digits of a number, most significant first.
pub fn u64_to_string(n: u64) -> (r: String) {
    let mut digits: Vec<u64> = Vec::new();
    digits.push(n % 10);
    let mut rest: u64 = n / 10;
    while rest > 0
        invariant
            true,
        decreases rest,
    {
        digits.push(rest % 10);
        rest = rest / 10;
    }
    let mut s = String::new();
    let mut i: usize = digits.len();
    while i > 0
        invariant
            i <= digits.len(),
        decreases i,
    {
        i = i - 1;
        s.append(digit_str(digits[i]));
    }
    s
}

/// One decimal digit as text.
fn digit_str(d: u64) -> (r: &'static str) {
    if d == 0 {
        "0"
    } else if d == 1 {
        "1"
    } else if d == 2 {
        "2"
    } else if d == 3 {
        "3"
    } else if d == 4 {
        "4"
    } else if d == 5 {
        "5"
    } else if d == 6 {
        "6"
    } else if d == 7 {
        "7"
    } else if d == 8 {
        "8"
    } else {
        "9"
    }
}

/// The decimal digits of a signed number, with a leading minus sign
/// where it is negative.
pub fn i64_to_string(n: i64) -> (r: String) {
    if n >= 0 {
        u64_to_string(n as u64)
    } else {
        let m: u64 = if n == i64::MIN {
            9223372036854775808u64
        } else {
            (-n) as u64
        };
        let mut s = String::new();
        s.append("-");
        let t = u64_to_string(m);
        s.append(t.as_str());
        s
    }
}

/// A number as two or more digits, zero-padded on the left.
fn two_digits(n: u32) -> (r: String) {
    let mut s = String::new();
    if n < 10 {
        s.append("0");
    }
    let t = u64_to_string(n as u64);
    s.append(t.as_str());
    s
}

/// A date as year, month and day separated by dashes, the month and day
/// zero-padded to two digits.
pub fn date_to_string(d: &Date) -> (r: String) {
    let mut s = u64_to_string(if d.year() >= 0 {
        d.year() as u64
    } else {
        0
    });
    s.append("-");
    let m = two_digits(d.month());
    s.append(m.as_str());
    s.append("-");
    let day = two_digits(d.day());
    s.append(day.as_str());
    s
}

/// An amount as its decimal magnitude followed by its symbol: the
/// fixed-point magnitude is printed with its eight fraction digits,
/// trailing zeros trimmed.
pub fn amount_to_string(a: &Amount) -> (r: String) {
    let mut s = String::new();
    if a.mag < 0 {
        s.append("-");
    }
    let m: u64 = if a.mag == i64::MIN {
        9223372036854775808u64
    } else if a.mag < 0 {
        (-a.mag) as u64
    } else {
        a.mag as u64
    };
    let units = m / (AMOUNT_SCALE as u64);
    let mut frac = m % (AMOUNT_SCALE as u64);
    let u = u64_to_string(units);
    s.append(u.as_str());
    if frac > 0 {
        while frac % 10 == 0
            invariant
                0 < frac <= AMOUNT_SCALE,
            decreases frac,
        {
            frac = frac / 10;
        }
        s.append(".");
        let f = u64_to_string(frac);
        s.append(f.as_str());
    }
    match &a.symbol {
        Some(sym) => {
            s.append(" ");
            s.append(sym.as_str());
        },
        None => {},
    }
    s
}

/// A posting as one line of text: the account, then the amount and its
/// assertions where they exist.
pub fn posting_to_string(p: &Posting) -> (r: String) {
    let mut s = String::new();
    match p {
        Posting::Classic(c) => {
            s.append(c.account.as_str());
            match &c.amount {
                Some(a) => {
                    s.append(" ");
                    let t = amount_to_string(a);
                    s.append(t.as_str());
                },
                None => {},
            }
            match &c.cost_assertion {
                Some(Cost::UnitCost(a)) => {
                    s.append(" @ ");
                    let t = amount_to_string(a);
                    s.append(t.as_str());
                },
                Some(Cost::TotalCost(a)) => {
                    s.append(" = ");
                    let t = amount_to_string(a);
                    s.append(t.as_str());
                },
                None => {},
            }
            match &c.balance_assertion {
                Some(a) => {
                    s.append(" ! ");
                    let t = amount_to_string(a);
                    s.append(t.as_str());
                },
                None => {},
            }
        },
        Posting::Envelope(e) => {
            s.append("envelope ");
            s.append(e.account_name.as_str());
            s.append(" ");
            s.append(e.envelope_name.as_str());
            s.append(" ");
            let t = amount_to_string(&e.amount);
            s.append(t.as_str());
        },
    }
    s
}

} // verus!
