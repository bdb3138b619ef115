use wlog::date::{Date, Weekday};
use wlog::schedule::{month_index, ScheduleLog, WeekBasedSchedule};

#[test]
fn schedule_to_log() {
    let schedule = WeekBasedSchedule(0b00011111);
    let date = Date { year: 2024, month: 12, day: 1 };

    let bitmap = ScheduleLog::from_weekly(schedule, date).to_bitmap();
    let expected = 0b01100111110011111001111100111110;
    if bitmap != expected {
        panic!("expected: {expected:#034b}\n  actual: {bitmap:#034b}");
    }
}

#[test]
fn weekly_round_trip() {
    let schedule = WeekBasedSchedule::new(&[Weekday::Wednesday, Weekday::Monday], true);
    assert!(schedule.is_flexible());
    assert_eq!(schedule.to_weekdays(), vec![Weekday::Monday, Weekday::Wednesday]);

    let rigid = WeekBasedSchedule::new(
        &[
            Weekday::Monday,
            Weekday::Tuesday,
            Weekday::Wednesday,
            Weekday::Thursday,
            Weekday::Friday,
        ],
        false,
    );
    assert!(!rigid.is_flexible());
    assert_eq!(rigid.0, 0b00011111);

    // Duplicate weekdays collapse.
    let dup = WeekBasedSchedule::new(&[Weekday::Sunday, Weekday::Sunday], false);
    assert_eq!(dup.0, WeekBasedSchedule::new(&[Weekday::Sunday], false).0);
    assert_eq!(dup.to_weekdays(), vec![Weekday::Sunday]);
}

#[test]
fn workday_agreement() {
    // December 2024 expanded from a Monday-to-Friday schedule: a day is a
    // workday exactly when its weekday is scheduled.
    let schedule = WeekBasedSchedule(0b00011111);
    let date = Date { year: 2024, month: 12, day: 1 };
    let log = ScheduleLog::from_weekly(schedule, date);
    for day in 1..=31u8 {
        let weekday = Date { year: 2024, month: 12, day }.weekday();
        let scheduled = weekday.number_days_from_monday() < 5;
        assert_eq!(log.is_workday(day), scheduled, "day {day}");
    }
}

#[test]
fn flexibility_flag_is_copied() {
    let date = Date { year: 2024, month: 12, day: 15 };
    let flexible = ScheduleLog::from_weekly(WeekBasedSchedule(0b1000_0001), date);
    let rigid = ScheduleLog::from_weekly(WeekBasedSchedule(0b0000_0001), date);
    assert!(flexible.to_bitmap() < 0);
    assert!(rigid.to_bitmap() >= 0);
    assert_eq!(flexible.is_workday(2), true);
    assert_eq!(rigid.is_workday(2), true);
}

#[test]
fn bitmap_round_trips() {
    assert_eq!(ScheduleLog::from_bitmap(-1).to_bitmap(), -1);
    assert_eq!(ScheduleLog::from_bitmap(0).to_bitmap(), 0);
    assert_eq!(ScheduleLog::from_bitmap(i32::MIN).to_bitmap(), i32::MIN);
    assert_eq!(ScheduleLog::from_bitmap(12345).to_bitmap(), 12345);

    assert_eq!(WeekBasedSchedule::from_bitmap(0x1ff).0, 0xff);
    assert_eq!(WeekBasedSchedule::from_bitmap(0b00011111).0, 0b00011111);
}

#[test]
fn month_index_formula() {
    let d = Date { year: 2025, month: 1, day: 26 };
    assert_eq!(month_index(&d), 2025 * 12 + 1);
    let d = Date { year: 2024, month: 12, day: 31 };
    assert_eq!(month_index(&d), 2024 * 12 + 12);
}
