//! Calendar arithmetic on the proleptic Gregorian calendar.
//!
//! A [`Date`] is a plain `(year, month, day)` triple restricted to the years
//! `-9999..=9999`. Every date maps to its *day number*, the count of days
//! since the earliest representable date; day numbers order dates, drive the
//! weekday computation and give day-count subtraction an exact meaning.

use vstd::prelude::*;

verus! {

/// Earliest year a `Date` may hold.
pub const MIN_YEAR: i32 = -9999;

/// Latest year a `Date` may hold.
pub const MAX_YEAR: i32 = 9999;

/// A day of the week, Monday first.
#[derive(Debug, Clone, Copy, PartialEq, Eq, Structural)]
pub enum Weekday {
    Monday,
    Tuesday,
    Wednesday,
    Thursday,
    Friday,
    Saturday,
    Sunday,
}

impl Weekday {
    /// Position of the weekday in a Monday-started week: Monday is 0, Sunday is 6.
    pub open spec fn spec_days_from_monday(self) -> int {
        match self {
            Weekday::Monday => 0,
            Weekday::Tuesday => 1,
            Weekday::Wednesday => 2,
            Weekday::Thursday => 3,
            Weekday::Friday => 4,
            Weekday::Saturday => 5,
            Weekday::Sunday => 6,
        }
    }

    /// The weekday sitting at position `i` of a Monday-started week.
    pub open spec fn spec_from_days_from_monday(i: int) -> Weekday {
        if i == 0 {
            Weekday::Monday
        } else if i == 1 {
            Weekday::Tuesday
        } else if i == 2 {
            Weekday::Wednesday
        } else if i == 3 {
            Weekday::Thursday
        } else if i == 4 {
            Weekday::Friday
        } else if i == 5 {
            Weekday::Saturday
        } else {
            Weekday::Sunday
        }
    }

    /// Days from Monday to this weekday, 0 through 6.
    pub fn number_days_from_monday(&self) -> (r: u8)
        ensures
            r as int == self.spec_days_from_monday(),
    {
        match self {
            Weekday::Monday => 0,
            Weekday::Tuesday => 1,
            Weekday::Wednesday => 2,
            Weekday::Thursday => 3,
            Weekday::Friday => 4,
            Weekday::Saturday => 5,
            Weekday::Sunday => 6,
        }
    }

    /// The weekday `i` days after a Monday.
    pub fn from_days_from_monday(i: u8) -> (r: Weekday)
        requires
            i < 7,
        ensures
            r == Weekday::spec_from_days_from_monday(i as int),
    {
        if i == 0 {
            Weekday::Monday
        } else if i == 1 {
            Weekday::Tuesday
        } else if i == 2 {
            Weekday::Wednesday
        } else if i == 3 {
            Weekday::Thursday
        } else if i == 4 {
            Weekday::Friday
        } else if i == 5 {
            Weekday::Saturday
        } else {
            Weekday::Sunday
        }
    }
}

/// Whether `y` is a leap year of the proleptic Gregorian calendar.
pub open spec fn is_leap_year(y: int) -> bool {
    (y % 4 == 0 && y % 100 != 0) || y % 400 == 0
}

/// Number of days in year `y`: 366 in leap years, 365 otherwise.
pub open spec fn spec_days_in_year(y: int) -> int {
    if is_leap_year(y) {
        366
    } else {
        365
    }
}

/// Number of days in month `m` (1 through 12) of year `y`.
pub open spec fn spec_days_in_month(y: int, m: int) -> int {
    if m == 2 {
        if is_leap_year(y) {
            29
        } else {
            28
        }
    } else if m == 4 || m == 6 || m == 9 || m == 11 {
        30
    } else {
        31
    }
}

/// Days of year `y` that lie before the first day of month `m`.
pub open spec fn days_before_month(y: int, m: int) -> int
    decreases m,
{
    if m <= 1 {
        0
    } else {
        days_before_month(y, m - 1) + spec_days_in_month(y, m - 1)
    }
}

/// Days that lie before January 1 of year `y`, counted from January 1 of the
/// earliest representable year.
pub open spec fn days_before_year(y: int) -> int
    decreases y - MIN_YEAR,
{
    if y <= MIN_YEAR {
        0
    } else {
        days_before_year(y - 1) + spec_days_in_year(y - 1)
    }
}

/// A calendar date, stored as year, month (1 through 12) and day of month.
#[derive(Debug, Clone, Copy, PartialEq, Eq, Structural)]
pub struct Date {
    pub year: i32,
    pub month: u8,
    pub day: u8,
}

impl Date {
    /// The date designates an existing day of the proleptic Gregorian
    /// calendar within the supported year range.
    pub open spec fn wf(self) -> bool {
        &&& MIN_YEAR <= self.year <= MAX_YEAR
        &&& 1 <= self.month <= 12
        &&& 1 <= self.day
        &&& self.day as int <= spec_days_in_month(self.year as int, self.month as int)
    }

    /// Days since the earliest representable date. Consecutive dates have
    /// consecutive day numbers, so differences of day numbers are day counts.
    pub open spec fn spec_day_number(self) -> int {
        days_before_year(self.year as int) + days_before_month(
            self.year as int,
            self.month as int,
        ) + self.day - 1
    }

    /// Weekday of the date, as days from Monday. The earliest representable
    /// date falls on a Monday, so this is the day number modulo 7.
    pub open spec fn spec_weekday(self) -> int {
        self.spec_day_number() % 7
    }
}

/// Failure of a date construction: the requested combination of year, month
/// and day does not exist on the proleptic Gregorian calendar.
#[derive(Debug, Clone, Copy, PartialEq, Eq, Structural)]
pub enum DateError {
    InvalidDate,
}

proof fn lemma_days_before_year_bound(y: int)
    requires
        MIN_YEAR <= y <= MAX_YEAR + 1,
    ensures
        0 <= days_before_year(y) <= 366 * (y - MIN_YEAR),
    decreases y - MIN_YEAR,
{
    if y > MIN_YEAR {
        lemma_days_before_year_bound(y - 1);
    }
}

proof fn lemma_days_before_year_monotone(y1: int, y2: int)
    requires
        y1 <= y2,
    ensures
        days_before_year(y1) <= days_before_year(y2),
    decreases y2 - y1,
{
    if y1 < y2 {
        lemma_days_before_year_monotone(y1, y2 - 1);
    }
}

proof fn lemma_days_before_month_monotone(y: int, m1: int, m2: int)
    requires
        1 <= m1 <= m2 <= 13,
    ensures
        days_before_month(y, m1) <= days_before_month(y, m2),
    decreases m2 - m1,
{
    if m1 < m2 {
        lemma_days_before_month_monotone(y, m1, m2 - 1);
        assert(spec_days_in_month(y, m2 - 1) >= 28);
    }
}

proof fn lemma_months_total(y: int)
    ensures
        days_before_month(y, 13) == spec_days_in_year(y),
{
    assert(days_before_month(y, 1) == 0);
    assert(days_before_month(y, 2) == 31);
    assert(days_before_month(y, 3) == 31 + spec_days_in_month(y, 2));
    assert(days_before_month(y, 4) == 62 + spec_days_in_month(y, 2));
    assert(days_before_month(y, 5) == 92 + spec_days_in_month(y, 2));
    assert(days_before_month(y, 6) == 123 + spec_days_in_month(y, 2));
    assert(days_before_month(y, 7) == 153 + spec_days_in_month(y, 2));
    assert(days_before_month(y, 8) == 184 + spec_days_in_month(y, 2));
    assert(days_before_month(y, 9) == 215 + spec_days_in_month(y, 2));
    assert(days_before_month(y, 10) == 245 + spec_days_in_month(y, 2));
    assert(days_before_month(y, 11) == 276 + spec_days_in_month(y, 2));
    assert(days_before_month(y, 12) == 306 + spec_days_in_month(y, 2));
    assert(days_before_month(y, 13) == 337 + spec_days_in_month(y, 2));
}

/// A well-formed date's day of year lies strictly inside its year's length,
/// so day numbers of consecutive years never overlap.
proof fn lemma_day_of_year_bounds(d: Date)
    requires
        d.wf(),
    ensures
        0 <= days_before_month(d.year as int, d.month as int) + d.day - 1,
        days_before_month(d.year as int, d.month as int) + d.day - 1 < spec_days_in_year(
            d.year as int,
        ),
{
    let y = d.year as int;
    let m = d.month as int;
    lemma_days_before_month_monotone(y, 1, m);
    lemma_days_before_month_monotone(y, m + 1, 13);
    lemma_months_total(y);
    assert(days_before_month(y, m + 1) == days_before_month(y, m) + spec_days_in_month(y, m));
}

/// Day numbers of well-formed dates are nonnegative and bounded by the day
/// count of the whole representable range.
pub proof fn lemma_day_number_bounds(d: Date)
    requires
        d.wf(),
    ensures
        0 <= d.spec_day_number(),
        d.spec_day_number() < days_before_year(MAX_YEAR + 1),
        days_before_year(MAX_YEAR + 1) <= 366 * 19999,
{
    let y = d.year as int;
    lemma_days_before_year_bound(y);
    lemma_day_of_year_bounds(d);
    assert(days_before_year(y + 1) == days_before_year(y) + spec_days_in_year(y));
    lemma_days_before_year_monotone(y + 1, MAX_YEAR + 1);
    lemma_days_before_year_bound(MAX_YEAR + 1);
}

/// Day numbers respect calendar order: an earlier date has a smaller day
/// number.
pub proof fn lemma_day_number_strict_monotone(a: Date, b: Date)
    requires
        a.wf(),
        b.wf(),
        a.year < b.year || (a.year == b.year && a.month < b.month) || (a.year == b.year && a.month
            == b.month && a.day < b.day),
    ensures
        a.spec_day_number() < b.spec_day_number(),
{
    let ay = a.year as int;
    let by = b.year as int;
    lemma_day_of_year_bounds(a);
    lemma_day_of_year_bounds(b);
    if a.year < b.year {
        assert(days_before_year(ay + 1) == days_before_year(ay) + spec_days_in_year(ay));
        lemma_days_before_year_monotone(ay + 1, by);
    } else if a.month < b.month {
        assert(days_before_month(ay, a.month as int + 1) == days_before_month(ay, a.month as int)
            + spec_days_in_month(ay, a.month as int));
        lemma_days_before_month_monotone(ay, a.month as int + 1, b.month as int);
    }
}

/// A day number determines the date: two well-formed dates with the same day
/// number are the same date.
pub proof fn lemma_day_number_injective(a: Date, b: Date)
    requires
        a.wf(),
        b.wf(),
        a.spec_day_number() == b.spec_day_number(),
    ensures
        a == b,
{
    if a.year < b.year || (a.year == b.year && a.month < b.month) || (a.year == b.year && a.month
        == b.month && a.day < b.day) {
        lemma_day_number_strict_monotone(a, b);
    } else if b.year < a.year || (b.year == a.year && b.month < a.month) || (b.year == a.year
        && b.month == a.month && b.day < a.day) {
        lemma_day_number_strict_monotone(b, a);
    }
}

/// Whether `y` is a leap year.
pub fn is_leap_year_exec(y: i32) -> (r: bool)
    requires
        MIN_YEAR <= y <= MAX_YEAR,
    ensures
        r == is_leap_year(y as int),
{
    let z: u32 = (y + 10000) as u32;
    proof {
        vstd::arithmetic::div_mod::lemma_mod_multiples_vanish(2500, y as int, 4);
        vstd::arithmetic::div_mod::lemma_mod_multiples_vanish(100, y as int, 100);
        vstd::arithmetic::div_mod::lemma_mod_multiples_vanish(25, y as int, 400);
    }
    (z % 4 == 0 && z % 100 != 0) || z % 400 == 0
}

/// Number of days in month `m` of year `y`.
pub fn days_in_month(y: i32, m: u8) -> (r: u8)
    requires
        MIN_YEAR <= y <= MAX_YEAR,
    ensures
        r as int == spec_days_in_month(y as int, m as int),
{
    if m == 2 {
        if is_leap_year_exec(y) {
            29
        } else {
            28
        }
    } else if m == 4 || m == 6 || m == 9 || m == 11 {
        30
    } else {
        31
    }
}

/// The result of building a date from components: the date itself when the
/// combination exists on the calendar, and `InvalidDate` otherwise.
pub open spec fn spec_calendar_date(year: i32, month: u8, day: u8) -> Result<Date, DateError> {
    if MIN_YEAR <= year <= MAX_YEAR && 1 <= month <= 12 && 1 <= day && day as int
        <= spec_days_in_month(year as int, month as int) {
        Ok(Date { year, month, day })
    } else {
        Err(DateError::InvalidDate)
    }
}

impl Date {
    /// Build a date from its components, rejecting combinations that do not
    /// exist on the calendar.
    pub fn from_calendar_date(year: i32, month: u8, day: u8) -> (r: Result<Date, DateError>)
        ensures
            r == spec_calendar_date(year, month, day),
            r is Ok ==> r->Ok_0.wf(),
    {
        if MIN_YEAR <= year && year <= MAX_YEAR && 1 <= month && month <= 12 && 1 <= day {
            if day <= days_in_month(year, month) {
                Ok(Date { year, month, day })
            } else {
                Err(DateError::InvalidDate)
            }
        } else {
            Err(DateError::InvalidDate)
        }
    }

    /// Keep the year and month and change the day of month, rejecting days
    /// the month does not have.
    pub fn replace_day(&self, day: u8) -> (r: Result<Date, DateError>)
        requires
            self.wf(),
        ensures
            r == spec_calendar_date(self.year, self.month, day),
            r is Ok ==> r->Ok_0.wf(),
    {
        if 1 <= day && day <= days_in_month(self.year, self.month) {
            Ok(Date { year: self.year, month: self.month, day })
        } else {
            Err(DateError::InvalidDate)
        }
    }

    /// Days since the earliest representable date.
    pub fn day_number(&self) -> (r: u32)
        requires
            self.wf(),
        ensures
            r as int == self.spec_day_number(),
    {
        let mut acc: u32 = 0;
        let mut y: i32 = MIN_YEAR;
        while y < self.year
            invariant
                self.wf(),
                MIN_YEAR <= y <= self.year,
                acc as int == days_before_year(y as int),
            decreases self.year - y,
        {
            proof {
                lemma_days_before_year_bound(y as int);
                assert(days_before_year(y as int + 1) == days_before_year(y as int)
                    + spec_days_in_year(y as int));
            }
            acc = acc + (if is_leap_year_exec(y) {
                366
            } else {
                365
            });
            y = y + 1;
        }
        let mut m: u8 = 1;
        while m < self.month
            invariant
                self.wf(),
                1 <= m <= self.month,
                acc as int == days_before_year(self.year as int) + days_before_month(
                    self.year as int,
                    m as int,
                ),
            decreases self.month - m,
        {
            proof {
                lemma_days_before_year_bound(self.year as int);
                lemma_days_before_month_monotone(self.year as int, 1, m as int);
                lemma_days_before_month_monotone(self.year as int, m as int + 1, 13);
                lemma_months_total(self.year as int);
                assert(days_before_month(self.year as int, m as int + 1) == days_before_month(
                    self.year as int,
                    m as int,
                ) + spec_days_in_month(self.year as int, m as int));
            }
            acc = acc + days_in_month(self.year, m) as u32;
            m = m + 1;
        }
        proof {
            lemma_day_number_bounds(*self);
        }
        acc + (self.day - 1) as u32
    }

    /// Weekday of this date.
    pub fn weekday(&self) -> (r: Weekday)
        requires
            self.wf(),
        ensures
            r.spec_days_from_monday() == self.spec_weekday(),
    {
        let n = self.day_number();
        Weekday::from_days_from_monday((n % 7) as u8)
    }

    /// The date one day earlier.
    pub fn previous_day(&self) -> (r: Date)
        requires
            self.wf(),
            self.spec_day_number() >= 1,
        ensures
            r.wf(),
            r.spec_day_number() == self.spec_day_number() - 1,
    {
        if self.day > 1 {
            Date { year: self.year, month: self.month, day: self.day - 1 }
        } else if self.month > 1 {
            let m = self.month - 1;
            let r = Date { year: self.year, month: m, day: days_in_month(self.year, m) };
            proof {
                assert(days_before_month(self.year as int, self.month as int) == days_before_month(
                    self.year as int,
                    m as int,
                ) + spec_days_in_month(self.year as int, m as int));
            }
            r
        } else {
            proof {
                if self.year == MIN_YEAR {
                    assert(days_before_year(MIN_YEAR as int) == 0);
                    assert(days_before_month(self.year as int, 1) == 0);
                    assert(false);
                }
                lemma_months_total(self.year as int - 1);
                assert(days_before_month(self.year as int - 1, 13) == days_before_month(
                    self.year as int - 1,
                    12,
                ) + spec_days_in_month(self.year as int - 1, 12));
                assert(days_before_year(self.year as int) == days_before_year(self.year as int - 1)
                    + spec_days_in_year(self.year as int - 1));
            }
            Date { year: self.year - 1, month: 12, day: 31 }
        }
    }

    /// The date `n` days earlier.
    pub fn sub_days(&self, n: u32) -> (r: Date)
        requires
            self.wf(),
            n as int <= self.spec_day_number(),
        ensures
            r.wf(),
            r.spec_day_number() == self.spec_day_number() - n,
    {
        let mut d = *self;
        let mut i: u32 = 0;
        while i < n
            invariant
                self.wf(),
                d.wf(),
                i <= n,
                n as int <= self.spec_day_number(),
                d.spec_day_number() == self.spec_day_number() - i,
            decreases n - i,
        {
            d = d.previous_day();
            i = i + 1;
        }
        d
    }
}

impl Date {
    /// The most recent date on or before this one that falls on weekday `w`:
    /// the date itself when its weekday already matches, otherwise between one
    /// and six days back.
    pub fn prev_occurrence(&self, w: Weekday) -> (r: Date)
        requires
            self.wf(),
            (self.spec_weekday() - w.spec_days_from_monday()) % 7 <= self.spec_day_number(),
        ensures
            r.wf(),
            r.spec_day_number() == self.spec_day_number() - ((self.spec_weekday()
                - w.spec_days_from_monday()) % 7),
            r.spec_weekday() == w.spec_days_from_monday(),
            self.spec_day_number() - 7 < r.spec_day_number() <= self.spec_day_number(),
    {
        proof {
            lemma_day_number_bounds(*self);
        }
        let n = self.day_number();
        let wd = (n % 7) as u8;
        let t = w.number_days_from_monday();
        let k: u8 = if wd >= t {
            wd - t
        } else {
            wd + 7 - t
        };
        let ghost sw = self.spec_weekday();
        let ghost ti = w.spec_days_from_monday();
        proof {
            vstd::arithmetic::div_mod::lemma_mod_bound(self.spec_day_number(), 7);
            if sw >= ti {
                vstd::arithmetic::div_mod::lemma_small_mod((sw - ti) as nat, 7);
            } else {
                vstd::arithmetic::div_mod::lemma_mod_multiples_vanish(1, sw - ti, 7);
                vstd::arithmetic::div_mod::lemma_small_mod((sw - ti + 7) as nat, 7);
            }
        }
        let r = self.sub_days(k as u32);
        proof {
            vstd::arithmetic::div_mod::lemma_fundamental_div_mod(self.spec_day_number(), 7);
            let q = self.spec_day_number() / 7;
            if sw >= ti {
                vstd::arithmetic::div_mod::lemma_mod_multiples_vanish(q, ti, 7);
            } else {
                vstd::arithmetic::div_mod::lemma_mod_multiples_vanish(q - 1, ti, 7);
            }
            vstd::arithmetic::div_mod::lemma_small_mod(ti as nat, 7);
        }
        r
    }
}

/// A time of day with second precision.
#[derive(Debug, Clone, Copy, PartialEq, Eq, Structural)]
pub struct Time {
    pub hour: u8,
    pub minute: u8,
    pub second: u8,
}

impl Time {
    /// The components stay inside a day.
    pub open spec fn wf(self) -> bool {
        self.hour < 24 && self.minute < 60 && self.second < 60
    }

    /// Seconds elapsed since midnight; orders times of day.
    pub open spec fn spec_seconds_of_day(self) -> int {
        self.hour * 3600 + self.minute * 60 + self.second
    }

    /// Build a time of day, rejecting out-of-range components.
    pub fn from_hms(hour: u8, minute: u8, second: u8) -> (r: Option<Time>)
        ensures
            (hour < 24 && minute < 60 && second < 60) ==> (r == Some(
                Time { hour, minute, second },
            )),
            !(hour < 24 && minute < 60 && second < 60) ==> r is None,
            r is Some ==> r->0.wf(),
    {
        if hour < 24 && minute < 60 && second < 60 {
            Some(Time { hour, minute, second })
        } else {
            None
        }
    }

    /// Whether this time of day comes strictly before `other`.
    pub fn is_before(&self, other: &Time) -> (r: bool)
        ensures
            r == (self.spec_seconds_of_day() < other.spec_seconds_of_day()),
    {
        let a = self.hour as u32 * 3600 + self.minute as u32 * 60 + self.second as u32;
        let b = other.hour as u32 * 3600 + other.minute as u32 * 60 + other.second as u32;
        a < b
    }
}

} // verus!
