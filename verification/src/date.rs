//! Calendar dates for the due-date logic.
//!
//! A [`Date`] is a proleptic Gregorian calendar day between the years 1
//! and 9999, held as plain year, month and day numbers. The module gives
//! the engine everything the schedule computations need: validity,
//! a linear day index counted from the first supported day, weekday
//! arithmetic on that index, and conversions in both directions.

use vstd::prelude::*;

verus! {

/// The first year a `Date` can hold.
pub const MIN_YEAR: i32 = 1;

/// The last year a `Date` can hold.
pub const MAX_YEAR: i32 = 9999;

/// A day of the proleptic Gregorian calendar, between the years
/// `MIN_YEAR` and `MAX_YEAR` inclusive.
#[derive(Clone, Copy, Debug, PartialEq, Eq, Structural)]
pub struct Date {
    /// The year, between `MIN_YEAR` and `MAX_YEAR`.
    pub year: i32,
    /// The month, between 1 and 12.
    pub month: u32,
    /// The day of the month, between 1 and the month's length.
    pub day: u32,
}

/// True of leap years: divisible by four, except century years not
/// divisible by four hundred.
pub open spec fn spec_is_leap_year(y: int) -> bool {
    (y % 4 == 0 && y % 100 != 0) || y % 400 == 0
}

/// The number of days of month `m` of year `y`.
pub open spec fn spec_days_in_month(y: int, m: int) -> int {
    if m == 2 {
        if spec_is_leap_year(y) {
            29
        } else {
            28
        }
    } else if m == 4 || m == 6 || m == 9 || m == 11 {
        30
    } else {
        31
    }
}

/// The number of days of year `y`.
pub open spec fn spec_days_in_year(y: int) -> int {
    if spec_is_leap_year(y) {
        366
    } else {
        365
    }
}

/// The number of days of year `y` that lie before month `m`; month 13
/// stands for the end of the year.
pub open spec fn spec_days_before_month(y: int, m: int) -> int {
    let base: int = if m == 1 {
        0
    } else if m == 2 {
        31
    } else if m == 3 {
        59
    } else if m == 4 {
        90
    } else if m == 5 {
        120
    } else if m == 6 {
        151
    } else if m == 7 {
        181
    } else if m == 8 {
        212
    } else if m == 9 {
        243
    } else if m == 10 {
        273
    } else if m == 11 {
        304
    } else if m == 12 {
        334
    } else {
        365
    };
    if m >= 3 && spec_is_leap_year(y) {
        base + 1
    } else {
        base
    }
}

/// The number of days that lie before the first day of year `y`,
/// counting from the first day of year `MIN_YEAR`.
pub open spec fn spec_days_before_year(y: int) -> int
    decreases y when y >= MIN_YEAR as int
{
    if y <= MIN_YEAR as int {
        0
    } else {
        spec_days_before_year(y - 1) + spec_days_in_year(y - 1)
    }
}

impl Date {
    /// True of dates the engine supports: year in range, month between
    /// 1 and 12, day between 1 and the month's length.
    pub open spec fn is_valid(self) -> bool {
        &&& MIN_YEAR as int <= self.year as int <= MAX_YEAR as int
        &&& 1 <= self.month as int <= 12
        &&& 1 <= self.day as int <= spec_days_in_month(self.year as int, self.month as int)
    }

    /// The position of this date in the supported calendar: day 0 is the
    /// first of January of year `MIN_YEAR`, and each following day adds one.
    pub open spec fn index(self) -> int {
        spec_days_before_year(self.year as int) + spec_days_before_month(
            self.year as int,
            self.month as int,
        ) + self.day as int - 1
    }

    /// The day of the week as a number: 0 is Monday, 6 is Sunday. The
    /// first of January of year 1 was a Monday in the proleptic
    /// Gregorian calendar.
    pub open spec fn spec_weekday(self) -> int {
        self.index() % 7
    }

    /// Builds the date with the given year, month and day.
    pub fn from_ymd(year: i32, month: u32, day: u32) -> (d: Date)
        requires
            MIN_YEAR <= year <= MAX_YEAR,
            1 <= month <= 12,
            1 <= day <= spec_days_in_month(year as int, month as int),
        ensures
            d == (Date { year, month, day }),
            d.is_valid(),
    {
        Date { year, month, day }
    }

    /// Builds the date with the given year, month and day, or `None`
    /// where the three numbers name no supported date.
    pub fn from_ymd_opt(year: i32, month: u32, day: u32) -> (d: Option<Date>)
        ensures
            (Date { year, month, day }).is_valid() ==> d == Some(Date { year, month, day }),
            !(Date { year, month, day }).is_valid() ==> d is None,
    {
        if MIN_YEAR <= year && year <= MAX_YEAR && 1 <= month && month <= 12 && 1 <= day && day
            <= days_in_month(year, month) {
            Some(Date { year, month, day })
        } else {
            None
        }
    }

    /// The date's year.
    pub fn year(&self) -> (y: i32)
        ensures
            y == self.year,
    {
        self.year
    }

    /// The date's month, between 1 and 12.
    pub fn month(&self) -> (m: u32)
        ensures
            m == self.month,
    {
        self.month
    }

    /// The date's day of the month.
    pub fn day(&self) -> (d: u32)
        ensures
            d == self.day,
    {
        self.day
    }
}

/// True of leap years, exactly as `spec_is_leap_year` describes them.
pub fn is_leap_year(y: i32) -> (r: bool)
    requires
        y >= MIN_YEAR,
    ensures
        r == spec_is_leap_year(y as int),
{
    (y % 4 == 0 && y % 100 != 0) || y % 400 == 0
}

/// The number of days of month `m` of year `y`.
pub fn days_in_month(y: i32, m: u32) -> (r: u32)
    requires
        y >= MIN_YEAR,
        1 <= m <= 12,
    ensures
        r == spec_days_in_month(y as int, m as int),
        28 <= r <= 31,
{
    if m == 2 {
        if is_leap_year(y) {
            29
        } else {
            28
        }
    } else if m == 4 || m == 6 || m == 9 || m == 11 {
        30
    } else {
        31
    }
}

/// The number of days of year `y`.
pub fn days_in_year(y: i32) -> (r: u32)
    requires
        y >= MIN_YEAR,
    ensures
        r == spec_days_in_year(y as int),
{
    if is_leap_year(y) {
        366
    } else {
        365
    }
}

/// The number of days of year `y` that lie before month `m`.
fn days_before_month(y: i32, m: u32) -> (r: u32)
    requires
        y >= MIN_YEAR,
        1 <= m <= 13,
    ensures
        r == spec_days_before_month(y as int, m as int),
{
    let base: u32 = if m == 1 {
        0
    } else if m == 2 {
        31
    } else if m == 3 {
        59
    } else if m == 4 {
        90
    } else if m == 5 {
        120
    } else if m == 6 {
        151
    } else if m == 7 {
        181
    } else if m == 8 {
        212
    } else if m == 9 {
        243
    } else if m == 10 {
        273
    } else if m == 11 {
        304
    } else if m == 12 {
        334
    } else {
        365
    };
    if m >= 3 && is_leap_year(y) {
        base + 1
    } else {
        base
    }
}

/// Days before year `y` grow by at most 366 a year.
proof fn lemma_days_before_year_bound(y: int)
    requires
        y >= MIN_YEAR as int,
    ensures
        365 * (y - 1) <= spec_days_before_year(y) <= 366 * (y - 1),
    decreases y,
{
    if y > MIN_YEAR as int {
        lemma_days_before_year_bound(y - 1);
    }
}

/// Days before a year never shrink as the year grows.
proof fn lemma_days_before_year_monotone(a: int, b: int)
    requires
        MIN_YEAR as int <= a <= b,
    ensures
        spec_days_before_year(a) <= spec_days_before_year(b),
    decreases b,
{
    if a < b {
        lemma_days_before_year_monotone(a, b - 1);
    }
}

/// The number of days that lie before the first day of year `y`.
fn days_before_year(y: i32) -> (r: u32)
    requires
        MIN_YEAR <= y <= MAX_YEAR + 1,
    ensures
        r == spec_days_before_year(y as int),
{
    let mut acc: u32 = 0;
    let mut i: i32 = MIN_YEAR;
    while i < y
        invariant
            MIN_YEAR <= i <= y <= MAX_YEAR + 1,
            acc == spec_days_before_year(i as int),
        decreases y - i,
    {
        proof {
            lemma_days_before_year_bound(i as int + 1);
        }
        acc = acc + days_in_year(i);
        i = i + 1;
    }
    acc
}

/// One more than the largest day index the engine supports: the index
/// that the first day after year `MAX_YEAR` would have.
pub open spec fn spec_day_index_limit() -> int {
    spec_days_before_year(MAX_YEAR as int + 1)
}

/// One more than the largest day index the engine supports.
pub fn day_index_limit() -> (r: u32)
    ensures
        r == spec_day_index_limit(),
{
    days_before_year(MAX_YEAR + 1)
}

/// The day index limit lies between 365 and 366 days for each of the
/// supported years.
pub proof fn lemma_day_index_limit_bound()
    ensures
        3649635 <= spec_day_index_limit() <= 3659634,
{
    lemma_days_before_year_bound(MAX_YEAR as int + 1);
}

impl Date {
    /// The date's day index: its position in the supported calendar,
    /// with day 0 the first of January of year `MIN_YEAR`.
    pub fn day_number(&self) -> (n: u32)
        requires
            self.is_valid(),
        ensures
            n == self.index(),
            n < spec_day_index_limit(),
    {
        proof {
            lemma_days_before_year_bound(self.year as int);
            lemma_days_before_year_bound(MAX_YEAR as int + 1);
            lemma_days_before_year_monotone(self.year as int + 1, MAX_YEAR as int + 1);
        }
        days_before_year(self.year) + days_before_month(self.year, self.month) + self.day - 1
    }

    /// The day of the week as a number, 0 Monday through 6 Sunday.
    pub fn weekday(&self) -> (w: u32)
        requires
            self.is_valid(),
        ensures
            w == self.spec_weekday(),
            w < 7,
    {
        self.day_number() % 7
    }
}

/// The date at day index `n` of the supported calendar.
pub fn date_of_day_number(n: u32) -> (d: Date)
    requires
        0 <= n < spec_day_index_limit(),
    ensures
        d.is_valid(),
        d.index() == n,
{
    let mut year: i32 = MIN_YEAR;
    let mut acc: u32 = 0;
    loop
        invariant
            MIN_YEAR <= year <= MAX_YEAR,
            acc == spec_days_before_year(year as int),
            acc <= n < spec_day_index_limit(),
        ensures
            MIN_YEAR <= year <= MAX_YEAR,
            acc == spec_days_before_year(year as int),
            acc <= n,
            n < acc + spec_days_in_year(year as int),
        decreases MAX_YEAR - year,
    {
        proof {
            lemma_days_before_year_bound(year as int + 1);
            lemma_days_before_year_bound(MAX_YEAR as int + 1);
        }
        let diy = days_in_year(year);
        if n < acc + diy {
            break ;
        }
        proof {
            // The next year stays in range: `n` lies at or past its first
            // day, and every day index below the limit does.
            if year == MAX_YEAR {
                assert(acc + diy == spec_days_before_year(MAX_YEAR as int + 1));
                assert(false);
            }
        }
        acc = acc + diy;
        year = year + 1;
    }
    let mut month: u32 = 1;
    let mut acc2: u32 = acc;
    loop
        invariant
            MIN_YEAR <= year <= MAX_YEAR,
            1 <= month <= 12,
            acc2 == spec_days_before_year(year as int) + spec_days_before_month(
                year as int,
                month as int,
            ),
            acc2 <= n,
            n < spec_days_before_year(year as int) + spec_days_in_year(year as int),
        ensures
            MIN_YEAR <= year <= MAX_YEAR,
            1 <= month <= 12,
            acc2 == spec_days_before_year(year as int) + spec_days_before_month(
                year as int,
                month as int,
            ),
            acc2 <= n,
            n < acc2 + spec_days_in_month(year as int, month as int),
        decreases 12 - month,
    {
        proof {
            lemma_days_before_year_bound(MAX_YEAR as int + 1);
            lemma_days_before_year_monotone(year as int + 1, MAX_YEAR as int + 1);
        }
        let dim = days_in_month(year, month);
        if n < acc2 + dim {
            break ;
        }
        acc2 = acc2 + dim;
        month = month + 1;
    }
    let day: u32 = n - acc2 + 1;
    Date { year, month, day }
}

/// The day of month `m` of year `y` that `day` names, clamped into the
/// month: `day` itself where it exists, the month's last day otherwise.
pub open spec fn spec_clamped_day(y: int, m: int, day: int) -> int {
    if 1 <= day <= spec_days_in_month(y, m) {
        day
    } else {
        spec_days_in_month(y, m)
    }
}

/// The day that `day` names in month `m` of year `y`, clamped into the month.
pub fn clamped_day(y: i32, m: u32, day: u32) -> (r: u32)
    requires
        y >= MIN_YEAR,
        1 <= m <= 12,
    ensures
        r == spec_clamped_day(y as int, m as int, day as int),
{
    let dim = days_in_month(y, m);
    if 1 <= day && day <= dim {
        day
    } else {
        dim
    }
}

impl Date {
    /// Builds the date of the given year and month whose day is `day`
    /// clamped into the month.
    pub fn from_ymd_clamped(year: i32, month: u32, day: u32) -> (d: Date)
        requires
            MIN_YEAR <= year <= MAX_YEAR,
            1 <= month <= 12,
        ensures
            d == (Date { year, month, day: spec_clamped_day(year as int, month as int, day as int) as u32 }),
            d.is_valid(),
    {
        Date { year, month, day: clamped_day(year, month, day) }
    }

    /// True where `self` falls strictly after `other` in the calendar.
    pub fn is_after(&self, other: &Date) -> (r: bool)
        requires
            self.is_valid(),
            other.is_valid(),
        ensures
            r == (self.index() > other.index()),
    {
        self.day_number() > other.day_number()
    }

    /// True where `self` falls strictly before `other` in the calendar.
    pub fn is_before(&self, other: &Date) -> (r: bool)
        requires
            self.is_valid(),
            other.is_valid(),
        ensures
            r == (self.index() < other.index()),
    {
        self.day_number() < other.day_number()
    }

    /// The date `k` days after `self`, or `None` where that day lies
    /// past the last supported year.
    pub fn add_days(&self, k: u32) -> (r: Option<Date>)
        requires
            self.is_valid(),
            k <= 1000000,
        ensures
            self.index() + k < spec_day_index_limit() ==> (r matches Some(nd) && nd.is_valid()
                && nd.index() == self.index() + k),
            self.index() + k >= spec_day_index_limit() ==> r is None,
    {
        let n = self.day_number();
        let limit = day_index_limit();
        proof {
            lemma_days_before_year_bound(MAX_YEAR as int + 1);
        }
        if n + k < limit {
            Some(date_of_day_number(n + k))
        } else {
            None
        }
    }

    /// The date `k` days before `self`, or `None` where that day lies
    /// before the first supported year.
    pub fn sub_days(&self, k: u32) -> (r: Option<Date>)
        requires
            self.is_valid(),
        ensures
            self.index() - k >= 0 ==> (r matches Some(nd) && nd.is_valid() && nd.index()
                == self.index() - k),
            self.index() - k < 0 ==> r is None,
    {
        let n = self.day_number();
        if k <= n {
            proof {
                lemma_days_before_year_bound(MAX_YEAR as int + 1);
            }
            Some(date_of_day_number(n - k))
        } else {
            None
        }
    }
}

} // verus!
