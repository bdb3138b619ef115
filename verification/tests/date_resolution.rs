use wlog::date::{days_in_month, Date, DateError, Time, Weekday};
use wlog::log_entries::Period;
use wlog::resolve::{
    day_change_threshold, logical_today, resolve_date, resolve_period, DateArgGroup, DateSpec,
    PeriodArgGroup,
};

fn noon() -> Time {
    day_change_threshold(None)
}

fn morning() -> Time {
    Time { hour: 10, minute: 36, second: 21 }
}

#[test]
fn date_arg_group() {
    let today = Date { year: 2025, month: 1, day: 26 };
    let now_time = morning();
    let threshold = noon();

    let group = DateArgGroup { today: true, ..Default::default() };
    assert_eq!(group.to_date(&today, &now_time, &threshold).unwrap(), today);

    let group = DateArgGroup { yesterday: true, ..Default::default() };
    assert_eq!(
        group.to_date(&today, &now_time, &threshold).unwrap(),
        Date { year: 2025, month: 1, day: 25 }
    );

    let group = DateArgGroup { weekday: Some(Weekday::Monday), ..Default::default() };
    assert_eq!(
        group.to_date(&today, &now_time, &threshold).unwrap(),
        Date { year: 2025, month: 1, day: 20 }
    );

    let group = DateArgGroup { day: Some(100), ..Default::default() };
    assert_eq!(group.to_date(&today, &now_time, &threshold).ok(), None);

    let group = DateArgGroup { day: Some(3), ..Default::default() };
    assert_eq!(
        group.to_date(&today, &now_time, &threshold).unwrap(),
        Date { year: 2025, month: 1, day: 3 }
    );
}

#[test]
fn explicit_date_passes_through() {
    let today = Date { year: 2025, month: 1, day: 26 };
    let d = Date { year: 2024, month: 2, day: 29 };
    let r = resolve_date(&DateSpec::ExplicitDate(d), &today, &morning(), &noon());
    assert_eq!(r, Ok(d));
}

#[test]
fn day_change_threshold_rule() {
    let today = Date { year: 2025, month: 1, day: 26 };
    let before = resolve_date(&DateSpec::Unspecified, &today, &morning(), &noon());
    assert_eq!(before, Ok(Date { year: 2025, month: 1, day: 25 }));
    let after_time = Time { hour: 13, minute: 0, second: 0 };
    let after = resolve_date(&DateSpec::Unspecified, &today, &after_time, &noon());
    assert_eq!(after, Ok(today));
}

#[test]
fn nearest_past_weekday_on_same_day() {
    let today = Date { year: 2025, month: 1, day: 26 };
    let r = resolve_date(&DateSpec::NearestPastWeekday(Weekday::Sunday), &today, &morning(), &noon());
    assert_eq!(r, Ok(today));
}

#[test]
fn day_of_month_previous_month() {
    // Day 30 is past the 26th, so it means the 30th of the previous month.
    let today = Date { year: 2025, month: 1, day: 26 };
    let spec = DateSpec::DayOfMonth { day: 30, month: None, year: None };
    let r = resolve_date(&spec, &today, &morning(), &noon());
    assert_eq!(r, Ok(Date { year: 2024, month: 12, day: 30 }));
}

#[test]
fn day_of_month_with_month() {
    let today = Date { year: 2025, month: 1, day: 26 };
    // March lies after January, so the most recent March 15 was in 2024.
    let spec = DateSpec::DayOfMonth { day: 15, month: Some(3), year: None };
    let r = resolve_date(&spec, &today, &morning(), &noon());
    assert_eq!(r, Ok(Date { year: 2024, month: 3, day: 15 }));
    // January 20 of the current year already passed.
    let spec = DateSpec::DayOfMonth { day: 20, month: Some(1), year: None };
    let r = resolve_date(&spec, &today, &morning(), &noon());
    assert_eq!(r, Ok(Date { year: 2025, month: 1, day: 20 }));
    // February 29 most recently existed in 2024.
    let spec = DateSpec::DayOfMonth { day: 29, month: Some(2), year: None };
    let r = resolve_date(&spec, &today, &morning(), &noon());
    assert_eq!(r, Ok(Date { year: 2024, month: 2, day: 29 }));
}

#[test]
fn day_of_month_with_year() {
    let today = Date { year: 2025, month: 1, day: 26 };
    let spec = DateSpec::DayOfMonth { day: 29, month: Some(2), year: Some(2023) };
    let r = resolve_date(&spec, &today, &morning(), &noon());
    assert_eq!(r, Err(DateError::InvalidDate));
    let spec = DateSpec::DayOfMonth { day: 29, month: Some(2), year: Some(2024) };
    let r = resolve_date(&spec, &today, &morning(), &noon());
    assert_eq!(r, Ok(Date { year: 2024, month: 2, day: 29 }));
}

#[test]
fn period_resolution() {
    let today = Date { year: 2025, month: 1, day: 26 };

    let g = PeriodArgGroup { all: true, from: None, to: None, today: false, week: false };
    assert_eq!(resolve_period(&g, &today), None);

    let g = PeriodArgGroup { all: false, from: None, to: None, today: true, week: false };
    assert_eq!(resolve_period(&g, &today), Some(Period { from: today, to: today }));

    let g = PeriodArgGroup { all: false, from: None, to: None, today: false, week: true };
    assert_eq!(
        resolve_period(&g, &today),
        Some(Period { from: Date { year: 2025, month: 1, day: 19 }, to: today })
    );

    // Defaults: `to` steps today's day-of-month back from today as a day
    // count; `from` is the first of the month that lands in.
    let g = PeriodArgGroup { all: false, from: None, to: None, today: false, week: false };
    assert_eq!(
        resolve_period(&g, &today),
        Some(Period {
            from: Date { year: 2024, month: 12, day: 1 },
            to: Date { year: 2024, month: 12, day: 31 },
        })
    );

    // Explicit bounds override the defaults independently.
    let from = Date { year: 2025, month: 1, day: 2 };
    let g = PeriodArgGroup { all: false, from: Some(from), to: None, today: false, week: false };
    assert_eq!(
        resolve_period(&g, &today),
        Some(Period { from, to: Date { year: 2024, month: 12, day: 31 } })
    );
}

#[test]
fn period_uses_logical_today() {
    let today = Date { year: 2025, month: 1, day: 26 };
    let g = PeriodArgGroup { all: false, from: None, to: None, today: true, week: false };
    let yesterday = Date { year: 2025, month: 1, day: 25 };
    assert_eq!(
        g.to_period(&today, &morning(), &noon()),
        Some(Period { from: yesterday, to: yesterday })
    );
    assert_eq!(logical_today(&today, &morning(), &noon()), yesterday);
}

#[test]
fn weekday_matches_time_crate() {
    let dates = [
        (2025, 1, 26),
        (2024, 12, 1),
        (2000, 2, 29),
        (1970, 1, 1),
        (-9999, 1, 3),
        (9999, 12, 31),
        (1600, 3, 1),
        (2023, 6, 25),
        (1582, 10, 15),
    ];
    for (y, m, d) in dates {
        let mine = Date { year: y, month: m, day: d }.weekday().number_days_from_monday();
        let theirs = time::Date::from_calendar_date(y, time::Month::try_from(m).unwrap(), d)
            .unwrap()
            .weekday()
            .number_days_from_monday();
        assert_eq!(mine, theirs, "weekday of {y}-{m}-{d}");
    }
}

#[test]
fn days_in_month_matches_time_crate() {
    for y in [1900, 2000, 2023, 2024, -4] {
        for m in 1..=12u8 {
            let mine = days_in_month(y, m);
            let theirs = time::util::days_in_month(time::Month::try_from(m).unwrap(), y);
            assert_eq!(mine, theirs, "days in {y}-{m}");
        }
    }
}
