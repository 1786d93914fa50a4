//! Due-date policies.
//!
//! A [`Frequency`] says when an envelope is due: never, once on a fixed
//! date, weekly on a weekday, every other week from an anchor date,
//! monthly on a day of the month, every other month from an anchor date,
//! or annually on an anchor's month and day. Given an explicit "today"
//! it computes the next due date, and the due date one period before
//! that, with no reading of a clock anywhere in the module.

use crate::date::lemma_day_index_limit_bound;
use crate::utils::trunc_div;
use crate::utils::trunc_div_i64;
use crate::date::spec_clamped_day;
use crate::date::spec_day_index_limit;
use crate::date::Date;
use crate::date::MAX_YEAR;
use crate::date::MIN_YEAR;
use crate::date::date_of_day_number;
use crate::date::day_index_limit;
use vstd::arithmetic::div_mod::lemma_add_mod_noop;
use vstd::arithmetic::div_mod::lemma_fundamental_div_mod_converse;
use vstd::arithmetic::div_mod::lemma_mod_add_multiples_vanish;
use vstd::arithmetic::div_mod::lemma_small_mod;
use vstd::prelude::*;

verus! {

/// When an envelope is due. Anchor dates carry the weekday, the day of
/// the month, or the month and day that the schedule repeats on.
#[derive(Clone, Copy, Debug, PartialEq, Eq, Structural)]
pub enum Frequency {
    /// No due date at all.
    Never,
    /// Due once, on the carried date.
    Once(Date),
    /// Due every week on a weekday, 0 Monday through 6 Sunday.
    Weekly(u32),
    /// Due every other week, on the weekday of the anchor date.
    Biweekly(Date),
    /// Due every month on the carried day, clamped into short months.
    Monthly(u32),
    /// Due every other month, on the anchor's day of the month.
    Bimonthly(Date),
    /// Due every year, on the anchor's month and day.
    Annually(Date),
}

impl Frequency {
    /// True of the frequencies the engine supports: carried dates are
    /// valid and a weekday is one of the seven.
    pub open spec fn is_valid(self) -> bool {
        match self {
            Frequency::Never => true,
            Frequency::Once(d) => d.is_valid(),
            Frequency::Weekly(w) => w < 7,
            Frequency::Biweekly(d) => d.is_valid(),
            Frequency::Monthly(_) => true,
            Frequency::Bimonthly(d) => d.is_valid(),
            Frequency::Annually(d) => d.is_valid(),
        }
    }
}

/// The day index of the next weekly due date: the first day after
/// `today` whose weekday is `w`.
pub open spec fn spec_weekly_next(w: int, today: Date) -> int {
    let t0 = today.index() + 1;
    t0 + (w + 7 - t0 % 7) % 7
}

/// The day index of the next biweekly due date for an anchor: the anchor
/// advanced by two-week periods, one past the number of full periods
/// that have elapsed by `today`.
pub open spec fn spec_biweekly_next(anchor: Date, today: Date) -> int {
    let periods = trunc_div(trunc_div(today.index() - anchor.index(), 7), 2);
    anchor.index() + 14 * (periods + 1)
}

/// The next monthly due date for day-of-month `day`: this month's `day`
/// if it still lies after `today`, else next month's, in both cases
/// clamped into the month; `None` only where the calendar ends.
pub open spec fn spec_monthly_next(day: int, today: Date) -> Option<Date> {
    let c = Date {
        year: today.year,
        month: today.month,
        day: spec_clamped_day(today.year as int, today.month as int, day) as u32,
    };
    if c.day > today.day {
        Some(c)
    } else if today.month < 12 {
        Some(
            Date {
                year: today.year,
                month: (today.month + 1) as u32,
                day: spec_clamped_day(today.year as int, today.month as int + 1, day) as u32,
            },
        )
    } else if today.year < MAX_YEAR {
        Some(
            Date {
                year: (today.year + 1) as i32,
                month: 1,
                day: spec_clamped_day(today.year as int + 1, 1, day) as u32,
            },
        )
    } else {
        None
    }
}

/// The first date at or after `today` in the two-month progression that
/// starts at month `m` of year `y` and repeats the anchor's day of the
/// month, clamped into each month; `None` where the progression leaves
/// the calendar first.
pub open spec fn spec_bimonthly_search(anchor_day: int, y: int, m: int, today: Date) -> Option<
    Date,
>
    decreases 12 * (MAX_YEAR as int + 2 - y) - m when 1 <= m <= 12 && y <= MAX_YEAR as int + 1
{
    if y > MAX_YEAR as int {
        None
    } else {
        let d = Date { year: y as i32, month: m as u32, day: spec_clamped_day(y, m, anchor_day) as u32 };
        if d.index() >= today.index() {
            Some(d)
        } else if m <= 10 {
            spec_bimonthly_search(anchor_day, y, m + 2, today)
        } else {
            spec_bimonthly_search(anchor_day, y + 1, m - 10, today)
        }
    }
}

/// The next bimonthly due date: the anchor itself while it lies after
/// `today`, else the anchor's two-month progression searched from the
/// anchor.
pub open spec fn spec_bimonthly_next(anchor: Date, today: Date) -> Option<Date> {
    if anchor.index() > today.index() {
        Some(anchor)
    } else {
        spec_bimonthly_search(anchor.day as int, anchor.year as int, anchor.month as int, today)
    }
}

/// The anchor's month and day projected into year `y`, the day clamped
/// into the month (a leap-day anchor lands on the 28th of February in
/// common years).
pub open spec fn spec_annual_projection(anchor: Date, y: int) -> Date {
    Date {
        year: y as i32,
        month: anchor.month,
        day: spec_clamped_day(y, anchor.month as int, anchor.day as int) as u32,
    }
}

/// The next annual due date: the anchor's month and day this year if
/// that still lies after `today`, else the same projected into next
/// year; `None` only where the calendar ends.
pub open spec fn spec_annually_next(anchor: Date, today: Date) -> Option<Date> {
    let c = spec_annual_projection(anchor, today.year as int);
    if c.index() > today.index() {
        Some(c)
    } else if today.year < MAX_YEAR {
        Some(spec_annual_projection(anchor, today.year as int + 1))
    } else {
        None
    }
}

/// The date `num` months before `d`, keeping the day of the month and
/// clamping it into shorter months; `None` where the result would lie
/// before the first supported year.
pub open spec fn spec_subtract_months(d: Date, num: int) -> Option<Date> {
    let t = d.month as int - 1 - num;
    let y = d.year as int + t / 12;
    let m = t % 12 + 1;
    if y < MIN_YEAR as int {
        None
    } else {
        Some(Date { year: y as i32, month: m as u32, day: spec_clamped_day(y, m, d.day as int) as u32 })
    }
}

/// The relation between a frequency, a day "today", and the next due
/// date the engine computes for them: the whole contract of
/// [`Frequency::get_next_due_date`], one case per variant.
pub open spec fn next_due_matches(f: Frequency, today: Date, r: Option<Date>) -> bool {
    &&& (r matches Some(nd) ==> nd.is_valid())
    &&& (f is Never ==> r is None)
    &&& (f matches Frequency::Once(d) ==> r == (if d.index() > today.index() {
        Some(d)
    } else {
        None::<Date>
    }))
    &&& (f matches Frequency::Weekly(w) ==> ({
        let t = spec_weekly_next(w as int, today);
        &&& t < spec_day_index_limit() ==> (r matches Some(nd) && nd.index() == t)
        &&& t >= spec_day_index_limit() ==> r is None
    }))
    &&& (f matches Frequency::Weekly(w) ==> (r matches Some(nd) ==> nd.spec_weekday() == w as int
        && today.index() < nd.index() <= today.index() + 7))
    &&& (f matches Frequency::Biweekly(a) ==> ({
        let t = spec_biweekly_next(a, today);
        &&& 0 <= t < spec_day_index_limit() ==> (r matches Some(nd) && nd.index() == t)
        &&& !(0 <= t < spec_day_index_limit()) ==> r is None
    }))
    &&& (f matches Frequency::Monthly(day) ==> r == spec_monthly_next(day as int, today))
    &&& (f matches Frequency::Bimonthly(a) ==> r == spec_bimonthly_next(a, today))
    &&& (f matches Frequency::Annually(a) ==> r == spec_annually_next(a, today))
}

/// The relation between a frequency, a day "today", and the due date
/// one period before the next one: the whole contract of
/// [`Frequency::get_last_due_date`], one case per variant.
pub open spec fn last_due_matches(f: Frequency, today: Date, r: Option<Date>) -> bool {
    &&& (r matches Some(ld) ==> ld.is_valid())
    &&& (f is Never ==> r is None)
    &&& (f matches Frequency::Once(d) ==> r == (if d.index() > today.index() {
        None::<Date>
    } else {
        Some(d)
    }))
    &&& (f matches Frequency::Weekly(w) ==> ({
        let t = spec_weekly_next(w as int, today);
        &&& (t < spec_day_index_limit() && t - 7 >= 0) ==> (r matches Some(ld) && ld.index() == t
            - 7)
        &&& !(t < spec_day_index_limit() && t - 7 >= 0) ==> r is None
    }))
    &&& (f matches Frequency::Biweekly(a) ==> ({
        let t = spec_biweekly_next(a, today);
        &&& (0 <= t < spec_day_index_limit() && t - 14 >= 0) ==> (r matches Some(ld) && ld.index()
            == t - 14)
        &&& !(0 <= t < spec_day_index_limit() && t - 14 >= 0) ==> r is None
    }))
    &&& (f matches Frequency::Monthly(day) ==> r == (match spec_monthly_next(day as int, today) {
        Some(nd) => spec_subtract_months(nd, 1),
        None => None,
    }))
    &&& (f matches Frequency::Bimonthly(a) ==> r == (match spec_bimonthly_next(a, today) {
        Some(nd) => spec_subtract_months(nd, 2),
        None => None,
    }))
    &&& (f matches Frequency::Annually(a) ==> r == (match spec_annually_next(a, today) {
        Some(nd) => spec_subtract_months(nd, 12),
        None => None,
    }))
}

impl Frequency {
    /// Calculates and returns the next due date after `today` based on this Frequency.
    ///
    /// `Never` has none. `Once` is due on its date while that date still
    /// lies ahead. The repeating frequencies project their schedule past
    /// `today`; only where that projection would leave the supported
    /// calendar does the result degenerate to `None`.
    pub fn get_next_due_date(&self, today: &Date) -> (r: Option<Date>)
        requires
            self.is_valid(),
            today.is_valid(),
        ensures
            next_due_matches(*self, *today, r),
    {
        match self {
            Frequency::Never => None,
            Frequency::Once(date) => {
                if date.is_after(today) {
                    Some(*date)
                } else {
                    None
                }
            },
            Frequency::Weekly(w) => weekly_next(*w, today),
            Frequency::Biweekly(anchor) => biweekly_next(anchor, today),
            Frequency::Monthly(day) => monthly_next(*day, today),
            Frequency::Bimonthly(anchor) => bimonthly_next(anchor, today),
            Frequency::Annually(anchor) => annually_next(anchor, today),
        }
    }
}

/// The first day after `today` whose weekday is `w`.
fn weekly_next(w: u32, today: &Date) -> (r: Option<Date>)
    requires
        w < 7,
        today.is_valid(),
    ensures
        ({
            let t = spec_weekly_next(w as int, *today);
            &&& t < spec_day_index_limit() ==> (r matches Some(nd) && nd.is_valid() && nd.index()
                == t)
            &&& t >= spec_day_index_limit() ==> r is None
        }),
        r matches Some(nd) ==> nd.is_valid() && nd.spec_weekday() == w as int && today.index()
            < nd.index() <= today.index() + 7,
{
    let n = today.day_number();
    let limit = day_index_limit();
    proof {
        lemma_day_index_limit_bound();
    }
    let t0 = n + 1;
    let delta = (w + 7 - t0 % 7) % 7;
    proof {
        lemma_weekly_target(w as int, t0 as int);
    }
    if t0 + delta < limit {
        Some(date_of_day_number(t0 + delta))
    } else {
        None
    }
}

/// The weekly target day lies within a week of `t0` and lands on
/// weekday `w`.
proof fn lemma_weekly_target(w: int, t0: int)
    requires
        0 <= w < 7,
        t0 >= 0,
    ensures
        ({
            let delta = (w + 7 - t0 % 7) % 7;
            &&& 0 <= delta < 7
            &&& (t0 + delta) % 7 == w
        }),
{
    let a = t0 % 7;
    let x = w + 7 - a;
    let delta = x % 7;
    assert(0 <= a < 7);
    assert(0 < x <= 14);
    if x < 7 {
        lemma_small_mod(x as nat, 7);
        assert(delta == x);
    } else {
        lemma_mod_add_multiples_vanish(x - 7, 7);
        lemma_small_mod((x - 7) as nat, 7);
        assert(delta == x - 7);
    }
    lemma_add_mod_noop(t0, delta, 7);
    lemma_small_mod(delta as nat, 7);
    assert((t0 + delta) % 7 == (a + delta) % 7);
    if w >= a {
        assert(a + delta == w);
        lemma_small_mod(w as nat, 7);
    } else {
        assert(a + delta == w + 7);
        lemma_mod_add_multiples_vanish(w, 7);
        lemma_small_mod(w as nat, 7);
    }
}

/// The anchor advanced by two-week periods to the first period past `today`.
fn biweekly_next(anchor: &Date, today: &Date) -> (r: Option<Date>)
    requires
        anchor.is_valid(),
        today.is_valid(),
    ensures
        ({
            let t = spec_biweekly_next(*anchor, *today);
            &&& 0 <= t < spec_day_index_limit() ==> (r matches Some(nd) && nd.is_valid()
                && nd.index() == t)
            &&& !(0 <= t < spec_day_index_limit()) ==> r is None
        }),
        r matches Some(nd) ==> nd.is_valid(),
{
    let an = anchor.day_number();
    let tn = today.day_number();
    let limit = day_index_limit();
    proof {
        lemma_day_index_limit_bound();
    }
    let diff: i64 = tn as i64 - an as i64;
    let weeks: i64 = trunc_div_i64(diff, 7);
    let periods: i64 = trunc_div_i64(weeks, 2);
    let target: i64 = an as i64 + 14 * (periods + 1);
    if 0 <= target && target < limit as i64 {
        Some(date_of_day_number(target as u32))
    } else {
        None
    }
}

/// This month's day if it still lies ahead, else next month's, clamped.
fn monthly_next(day: u32, today: &Date) -> (r: Option<Date>)
    requires
        today.is_valid(),
    ensures
        r == spec_monthly_next(day as int, *today),
        r matches Some(nd) ==> nd.is_valid(),
{
    let c = Date::from_ymd_clamped(today.year(), today.month(), day);
    if c.day() > today.day() {
        Some(c)
    } else if today.month() < 12 {
        Some(Date::from_ymd_clamped(today.year(), today.month() + 1, day))
    } else if today.year() < MAX_YEAR {
        Some(Date::from_ymd_clamped(today.year() + 1, 1, day))
    } else {
        None
    }
}

/// The anchor's two-month progression searched forward from the anchor.
fn bimonthly_next(anchor: &Date, today: &Date) -> (r: Option<Date>)
    requires
        anchor.is_valid(),
        today.is_valid(),
    ensures
        r == spec_bimonthly_next(*anchor, *today),
        r matches Some(nd) ==> nd.is_valid(),
{
    if anchor.is_after(today) {
        return Some(*anchor);
    }
    let anchor_day = anchor.day();
    let mut y: i32 = anchor.year();
    let mut m: u32 = anchor.month();
    loop
        invariant
            MIN_YEAR <= y <= MAX_YEAR,
            1 <= m <= 12,
            today.is_valid(),
            1 <= anchor_day <= 31,
            spec_bimonthly_search(anchor_day as int, anchor.year as int, anchor.month as int, *today)
                == spec_bimonthly_search(anchor_day as int, y as int, m as int, *today),
        ensures
            ({
                let res = spec_bimonthly_search(
                    anchor_day as int,
                    anchor.year as int,
                    anchor.month as int,
                    *today,
                );
                ({
                    let d = Date {
                        year: y,
                        month: m,
                        day: spec_clamped_day(y as int, m as int, anchor_day as int) as u32,
                    };
                    res == Some(d) && d.index() >= today.index()
                } || res is None)
            }),
            ({
                let res = spec_bimonthly_search(
                    anchor_day as int,
                    anchor.year as int,
                    anchor.month as int,
                    *today,
                );
                res is None ==> ({
                    let d = Date {
                        year: y,
                        month: m,
                        day: spec_clamped_day(y as int, m as int, anchor_day as int) as u32,
                    };
                    y == MAX_YEAR && m >= 11 && d.index() < today.index()
                })
            }),
        decreases 12 * (MAX_YEAR - y) + 12 - m,
    {
        let d = Date::from_ymd_clamped(y, m, anchor_day);
        if !d.is_before(today) {
            proof {
                assert(spec_bimonthly_search(anchor_day as int, y as int, m as int, *today)
                    == Some(d));
            }
            break ;
        }
        if m <= 10 {
            proof {
                assert(spec_bimonthly_search(anchor_day as int, y as int, m as int, *today)
                    == spec_bimonthly_search(anchor_day as int, y as int, m as int + 2, *today));
            }
            m = m + 2;
        } else if y < MAX_YEAR {
            proof {
                assert(spec_bimonthly_search(anchor_day as int, y as int, m as int, *today)
                    == spec_bimonthly_search(
                    anchor_day as int,
                    y as int + 1,
                    m as int - 10,
                    *today,
                ));
            }
            y = y + 1;
            m = m - 10;
        } else {
            proof {
                assert(spec_bimonthly_search(anchor_day as int, y as int + 1, m as int - 10, *today)
                    is None);
                assert(spec_bimonthly_search(anchor_day as int, y as int, m as int, *today)
                    is None);
            }
            break ;
        }
    }
    let d = Date::from_ymd_clamped(y, m, anchor_day);
    if d.is_before(today) {
        None
    } else {
        Some(d)
    }
}

/// The anchor's month and day this year if still ahead, else next year.
fn annually_next(anchor: &Date, today: &Date) -> (r: Option<Date>)
    requires
        anchor.is_valid(),
        today.is_valid(),
    ensures
        r == spec_annually_next(*anchor, *today),
        r matches Some(nd) ==> nd.is_valid(),
{
    let c = Date::from_ymd_clamped(today.year(), anchor.month(), anchor.day());
    if c.is_after(today) {
        Some(c)
    } else if today.year() < MAX_YEAR {
        Some(Date::from_ymd_clamped(today.year() + 1, anchor.month(), anchor.day()))
    } else {
        None
    }
}

impl Frequency {
    /// The date `num` months before `date`, keeping the day of the month
    /// and clamping it into shorter months. `None` where the result
    /// would lie before the first supported year.
    pub fn subtract_months(date: Date, num: i32) -> (r: Option<Date>)
        requires
            date.is_valid(),
            num >= 0,
        ensures
            r == spec_subtract_months(date, num as int),
            r matches Some(nd) ==> nd.is_valid(),
    {
        let t: i64 = date.month() as i64 - 1 - num as i64;
        let mut y: i64 = date.year() as i64;
        let mut m0: i64 = t;
        while m0 < 0
            invariant
                12 * y + m0 == 12 * date.year as int + t as int,
                m0 <= 11,
            decreases 11 - m0,
        {
            m0 = m0 + 12;
            y = y - 1;
        }
        proof {
            lemma_fundamental_div_mod_converse(
                t as int,
                12,
                (y - date.year as int) as int,
                m0 as int,
            );
        }
        if y < MIN_YEAR as i64 {
            None
        } else {
            Some(Date::from_ymd_clamped(y as i32, (m0 + 1) as u32, date.day()))
        }
    }

    /// Gets the Frequency's last due date relative to `today`: the due
    /// date one period before the next one — a week, two weeks, a month,
    /// two months or a year earlier, according to the variant. For
    /// `Once` it degenerates to the fixed date once that date has
    /// passed, and to `None` while it still lies ahead; `Never` has
    /// none. `None` also comes back where the earlier period would fall
    /// off the supported calendar.
    pub fn get_last_due_date(&self, today: &Date) -> (r: Option<Date>)
        requires
            self.is_valid(),
            today.is_valid(),
        ensures
            last_due_matches(*self, *today, r),
    {
        let next = self.get_next_due_date(today);
        match next {
            Some(next_date) => match self {
                Frequency::Weekly(_) => next_date.sub_days(7),
                Frequency::Biweekly(_) => next_date.sub_days(14),
                Frequency::Monthly(_) => Self::subtract_months(next_date, 1),
                Frequency::Bimonthly(_) => Self::subtract_months(next_date, 2),
                Frequency::Annually(_) => Self::subtract_months(next_date, 12),
                _ => None,
            },
            None => match self {
                Frequency::Once(d) => Some(*d),
                _ => None,
            },
        }
    }
}

} // verus!
