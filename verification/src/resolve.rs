//! Resolution of partially specified dates and periods.
//!
//! Users rarely give a full calendar date: they say "today", "yesterday",
//! "last Monday", "day 15", or nothing at all. A [`DateSpec`] captures one
//! such request as a closed tagged choice, and [`resolve_date`] turns it into
//! a concrete [`Date`] given the current date and time and the configured
//! day-change cutoff. [`resolve_period`] does the same for date ranges.

use vstd::prelude::*;
use crate::date::{Date, DateError, Time, Weekday, spec_calendar_date};
use crate::date::{lemma_day_number_bounds, lemma_day_number_injective};
use crate::log_entries::Period;

verus! {

/// One request for a single date, exactly one way at a time.
///
/// For `DayOfMonth`, a month may only be given together with a day, and a
/// year only together with a month; the type already forces the former, the
/// resolver's precondition states the latter.
#[derive(Debug, Clone, Copy, PartialEq, Eq, Structural)]
pub enum DateSpec {
    /// The current calendar date.
    Today,
    /// The day before the current calendar date.
    Yesterday,
    /// The most recent date on or before today with the given weekday.
    NearestPastWeekday(Weekday),
    /// A fully spelled out date, passed through unchanged.
    ExplicitDate(Date),
    /// A day of month, optionally pinned to a month and a year.
    DayOfMonth { day: u8, month: Option<u8>, year: Option<i32> },
    /// Nothing given: fall back to the day-change-threshold rule.
    Unspecified,
}

/// What the resolver may assume of its inputs. Besides well-formedness this
/// excludes exactly the inputs on which the computed date would leave the
/// calendar's representable range.
pub open spec fn resolve_date_requires(ds: DateSpec, today: Date, now_time: Time, threshold: Time) -> bool {
    &&& today.wf()
    &&& match ds {
        DateSpec::Today => true,
        DateSpec::Yesterday => today.spec_day_number() >= 1,
        DateSpec::NearestPastWeekday(w) => (today.spec_weekday() - w.spec_days_from_monday()) % 7
            <= today.spec_day_number(),
        DateSpec::ExplicitDate(d) => d.wf(),
        DateSpec::DayOfMonth { day, month, year } => {
            &&& (year is Some ==> month is Some)
            &&& (month is None && day > today.day ==> day as int <= today.spec_day_number())
        },
        DateSpec::Unspecified => now_time.spec_seconds_of_day() < threshold.spec_seconds_of_day()
            ==> today.spec_day_number() >= 1,
    }
}

/// Exactly which date (or error) each request resolves to.
///
/// Where the result comes from stepping a day count back from today, the
/// landing date is pinned through its day number: it is the unique
/// well-formed date `b` whose day number sits the given count below today's.
pub open spec fn resolve_date_ensures(
    ds: DateSpec,
    today: Date,
    now_time: Time,
    threshold: Time,
    r: Result<Date, DateError>,
) -> bool {
    match ds {
        DateSpec::Today => r == Ok::<Date, DateError>(today),
        DateSpec::Yesterday => r matches Ok(d) && d.wf() && d.spec_day_number()
            == today.spec_day_number() - 1,
        DateSpec::NearestPastWeekday(w) => r matches Ok(d) && d.wf() && d.spec_weekday()
            == w.spec_days_from_monday() && d.spec_day_number() == today.spec_day_number() - ((
        today.spec_weekday() - w.spec_days_from_monday()) % 7),
        DateSpec::ExplicitDate(d) => r == Ok::<Date, DateError>(d),
        DateSpec::DayOfMonth { day, month, year } => match (month, year) {
            (Option::None, Option::None) => {
                &&& day <= today.day ==> r == spec_calendar_date(today.year, today.month, day)
                &&& day > today.day ==> (exists|b: Date|
                    b.wf() && b.spec_day_number() == today.spec_day_number() - day)
                &&& day > today.day ==> (forall|b: Date|
                    (b.wf() && b.spec_day_number() == today.spec_day_number() - day) ==> r
                        == spec_calendar_date(b.year, b.month, day))
            },
            (Option::Some(m), Option::None) => {
                let y = if m > today.month || (m == today.month && day > today.day) {
                    today.year - 1
                } else {
                    today.year as int
                };
                r == spec_calendar_date(y as i32, m, day)
            },
            (Option::Some(m), Option::Some(y)) => r == spec_calendar_date(y, m, day),
            (Option::None, Option::Some(_)) => true,
        },
        DateSpec::Unspecified => {
            if now_time.spec_seconds_of_day() < threshold.spec_seconds_of_day() {
                r matches Ok(d) && d.wf() && d.spec_day_number() == today.spec_day_number() - 1
            } else {
                r == Ok::<Date, DateError>(today)
            }
        },
    }
}

/// Resolve one date request against the current date and time.
///
/// `today` is the calendar date of "now", `now_time` its time of day, and
/// `day_change_threshold` the configured cutoff below which an unspecified
/// date still means the previous calendar day.
pub fn resolve_date(
    ds: &DateSpec,
    today: &Date,
    now_time: &Time,
    day_change_threshold: &Time,
) -> (r: Result<Date, DateError>)
    requires
        resolve_date_requires(*ds, *today, *now_time, *day_change_threshold),
    ensures
        resolve_date_ensures(*ds, *today, *now_time, *day_change_threshold, r),
        r matches Ok(d) ==> d.wf(),
        (*ds matches DateSpec::DayOfMonth { day, .. } && day > 31) ==> r == Err::<
            Date,
            DateError,
        >(DateError::InvalidDate),
    {
    match ds {
        DateSpec::Today => Ok(*today),
        DateSpec::Yesterday => Ok(today.previous_day()),
        DateSpec::NearestPastWeekday(w) => Ok(today.prev_occurrence(*w)),
        DateSpec::ExplicitDate(d) => Ok(*d),
        DateSpec::DayOfMonth { day, month, year } => {
            let day = *day;
            match (month, year) {
                (Option::None, Option::None) => {
                    if day > today.day {
                        let base = today.sub_days(day as u32);
                        proof {
                            assert forall|b: Date|
                                b.wf() && b.spec_day_number() == today.spec_day_number()
                                    - day implies b == base by {
                                lemma_day_number_injective(b, base);
                            }
                        }
                        base.replace_day(day)
                    } else {
                        today.replace_day(day)
                    }
                },
                (Option::Some(m), Option::None) => {
                    let m = *m;
                    let y = if m > today.month || (m == today.month && day > today.day) {
                        today.year - 1
                    } else {
                        today.year
                    };
                    Date::from_calendar_date(y, m, day)
                },
                (Option::Some(m), Option::Some(y)) => Date::from_calendar_date(*y, *m, day),
                (Option::None, Option::Some(_)) => vstd::pervasive::unreached(),
            }
        },
        DateSpec::Unspecified => {
            if now_time.is_before(day_change_threshold) {
                Ok(today.previous_day())
            } else {
                Ok(*today)
            }
        },
    }
}

/// The day-change threshold in force: the configured one, or noon when none
/// is configured.
pub fn day_change_threshold(setting: Option<Time>) -> (r: Time)
    ensures
        setting matches Some(t) ==> r == t,
        setting is None ==> r == (Time { hour: 12, minute: 0, second: 0 }),
{
    match setting {
        Some(t) => t,
        None => Time { hour: 12, minute: 0, second: 0 },
    }
}

/// How `l` relates to the current instant as its "logical today": before the
/// day-change threshold the working day has not rolled over yet, so `l` is
/// the previous calendar day; from the threshold on it is today itself.
pub open spec fn spec_logical_today(today: Date, now_time: Time, threshold: Time, l: Date) -> bool {
    if now_time.spec_seconds_of_day() < threshold.spec_seconds_of_day() {
        l.wf() && l.spec_day_number() == today.spec_day_number() - 1
    } else {
        l == today
    }
}

/// The calendar date that the current instant logically belongs to.
pub fn logical_today(today: &Date, now_time: &Time, day_change_threshold: &Time) -> (r: Date)
    requires
        today.wf(),
        now_time.spec_seconds_of_day() < day_change_threshold.spec_seconds_of_day()
            ==> today.spec_day_number() >= 1,
    ensures
        r.wf(),
        spec_logical_today(*today, *now_time, *day_change_threshold, r),
{
    if now_time.is_before(day_change_threshold) {
        today.previous_day()
    } else {
        *today
    }
}

/// A single date given piecewise, as the command line hands it over: at most
/// one of the first five fields selects the date; `month` only accompanies
/// `day`, and `year` only accompanies `month`.
#[derive(Debug, Clone, Copy, PartialEq, Eq, Structural)]
pub struct DateArgGroup {
    pub today: bool,
    pub yesterday: bool,
    pub weekday: Option<Weekday>,
    pub date: Option<Date>,
    pub day: Option<u8>,
    pub month: Option<u8>,
    pub year: Option<i32>,
}

impl Default for DateArgGroup {
    /// No field given: the unspecified request.
    fn default() -> (r: Self)
        ensures
            r == (DateArgGroup {
                today: false,
                yesterday: false,
                weekday: None,
                date: None,
                day: None,
                month: None,
                year: None,
            }),
    {
        DateArgGroup {
            today: false,
            yesterday: false,
            weekday: None,
            date: None,
            day: None,
            month: None,
            year: None,
        }
    }
}

impl DateArgGroup {
    /// The tagged request this group of arguments stands for; earlier fields
    /// win, matching the group's mutual-exclusion rule.
    pub open spec fn spec_selection(self) -> DateSpec {
        if self.today {
            DateSpec::Today
        } else if self.yesterday {
            DateSpec::Yesterday
        } else if self.weekday is Some {
            DateSpec::NearestPastWeekday(self.weekday->0)
        } else if self.date is Some {
            DateSpec::ExplicitDate(self.date->0)
        } else if self.day is Some {
            DateSpec::DayOfMonth { day: self.day->0, month: self.month, year: self.year }
        } else {
            DateSpec::Unspecified
        }
    }

    /// Turn the argument group into its tagged request.
    pub fn selection(&self) -> (r: DateSpec)
        ensures
            r == self.spec_selection(),
    {
        if self.today {
            DateSpec::Today
        } else if self.yesterday {
            DateSpec::Yesterday
        } else if let Some(w) = self.weekday {
            DateSpec::NearestPastWeekday(w)
        } else if let Some(d) = self.date {
            DateSpec::ExplicitDate(d)
        } else if let Some(day) = self.day {
            DateSpec::DayOfMonth { day, month: self.month, year: self.year }
        } else {
            DateSpec::Unspecified
        }
    }

    /// Resolve the argument group to a concrete date.
    pub fn to_date(&self, today: &Date, now_time: &Time, day_change_threshold: &Time) -> (r:
        Result<Date, DateError>)
        requires
            resolve_date_requires(self.spec_selection(), *today, *now_time, *day_change_threshold),
        ensures
            resolve_date_ensures(
                self.spec_selection(),
                *today,
                *now_time,
                *day_change_threshold,
                r,
            ),
            r matches Ok(d) ==> d.wf(),
    {
        let ds = self.selection();
        resolve_date(&ds, today, now_time, day_change_threshold)
    }
}

/// A period given piecewise, as the command line hands it over. `all` wins
/// over `today`, `today` over `week`, and those over explicit bounds.
#[derive(Debug, Clone, Copy, PartialEq, Eq, Structural)]
pub struct PeriodArgGroup {
    pub all: bool,
    pub from: Option<Date>,
    pub to: Option<Date>,
    pub today: bool,
    pub week: bool,
}

/// What the period resolver may assume of its inputs, `today` being the
/// logical today the bounds are measured against.
pub open spec fn resolve_period_requires(g: PeriodArgGroup, today: Date) -> bool {
    &&& today.wf()
    &&& (g.from matches Some(d) ==> d.wf())
    &&& (g.to matches Some(d) ==> d.wf())
    &&& (!g.all && !g.today && g.week ==> today.spec_day_number() >= 7)
    &&& (!g.all && !g.today && !g.week && (g.from is None || g.to is None)
        ==> today.spec_day_number() >= today.day)
}

/// Exactly which period each request resolves to. A missing `from` defaults
/// to the first day of the month reached by stepping today's day-of-month
/// back from today as a day count; a missing `to` defaults to that stepped
/// date itself.
pub open spec fn resolve_period_ensures(g: PeriodArgGroup, today: Date, r: Option<Period>) -> bool {
    &&& (!g.all && !g.today && !g.week && (g.from is None || g.to is None) ==> (exists|b: Date|
        b.wf() && b.spec_day_number() == today.spec_day_number() - today.day))
    &&& if g.all {
        r is None
    } else if g.today {
        r == Some(Period { from: today, to: today })
    } else if g.week {
        r matches Some(p) && p.to == today && p.from.wf() && p.from.spec_day_number()
            == today.spec_day_number() - 7
    } else {
        r matches Some(p) && (match g.to {
            Some(t) => p.to == t,
            None => p.to.wf() && p.to.spec_day_number() == today.spec_day_number() - today.day,
        }) && (match g.from {
            Some(f) => p.from == f,
            None => p.from.wf() && p.from.day == 1 && (forall|b: Date|
                (b.wf() && b.spec_day_number() == today.spec_day_number() - today.day) ==> p.from
                    == (Date { year: b.year, month: b.month, day: 1 })),
        })
    }
}

/// Resolve a period request against the given logical today. `None` stands
/// for an unbounded period.
pub fn resolve_period(g: &PeriodArgGroup, today: &Date) -> (r: Option<Period>)
    requires
        resolve_period_requires(*g, *today),
    ensures
        resolve_period_ensures(*g, *today, r),
{
    if g.all {
        None
    } else if g.today {
        Some(Period { from: *today, to: *today })
    } else if g.week {
        Some(Period { from: today.sub_days(7), to: *today })
    } else {
        let need_base = matches!(g.from, None) || matches!(g.to, None);
        let mut base = *today;
        if need_base {
            base = today.sub_days(today.day as u32);
            proof {
                assert forall|b: Date|
                    b.wf() && b.spec_day_number() == today.spec_day_number()
                        - today.day implies b == base by {
                    lemma_day_number_injective(b, base);
                }
            }
        }
        let from = match g.from {
            Some(f) => f,
            None => Date { year: base.year, month: base.month, day: 1 },
        };
        let to = match g.to {
            Some(t) => t,
            None => base,
        };
        Some(Period { from, to })
    }
}

/// Periods built without explicit bounds are ordered: whatever flags select
/// the range, `from` never comes after `to`.
pub proof fn lemma_period_ordered(g: PeriodArgGroup, today: Date, r: Option<Period>)
    requires
        g.from is None,
        g.to is None,
        resolve_period_requires(g, today),
        resolve_period_ensures(g, today, r),
    ensures
        r matches Some(p) ==> p.from.spec_day_number() <= p.to.spec_day_number(),
{
    if !g.all && !g.today && !g.week {
        match r {
            Some(p) => {
                // `p.to` is itself the base date the default `from` is built
                // from: the first of `p.to`'s month, which lies no later.
                assert(p.from == (Date { year: p.to.year, month: p.to.month, day: 1 }));
                assert(p.from.spec_day_number() == p.to.spec_day_number() - (p.to.day - 1));
            },
            None => {},
        }
    }
}

impl PeriodArgGroup {
    /// Resolve the period arguments against the current instant: the bounds
    /// are measured from the logical today given by the day-change rule.
    pub fn to_period(&self, today: &Date, now_time: &Time, day_change_threshold: &Time) -> (r:
        Option<Period>)
        requires
            today.wf(),
            now_time.spec_seconds_of_day() < day_change_threshold.spec_seconds_of_day()
                ==> today.spec_day_number() >= 1,
            forall|l: Date|
                spec_logical_today(*today, *now_time, *day_change_threshold, l)
                    ==> resolve_period_requires(*self, l),
        ensures
            forall|l: Date|
                spec_logical_today(*today, *now_time, *day_change_threshold, l)
                    ==> resolve_period_ensures(*self, l, r),
    {
        let l = logical_today(today, now_time, day_change_threshold);
        let r = resolve_period(self, &l);
        proof {
            assert forall|l2: Date|
                spec_logical_today(
                    *today,
                    *now_time,
                    *day_change_threshold,
                    l2,
                ) implies resolve_period_ensures(*self, l2, r) by {
                lemma_day_number_injective(l2, l);
            }
        }
        r
    }
}

} // verus!

