use wlog::cli::LogFormat;
use wlog::date::Weekday;
use wlog::parse::{duration_value_parser, weekday_value_parser, DurationError};

#[test]
fn duration_parser() {
    let data = [
        ("1", Some(60)),
        ("10h", Some(10 * 60)),
        ("8h30", Some(8 * 60 + 30)),
        ("6h21m", Some(6 * 60 + 21)),
        ("90m", Some(90)),
        ("0", Some(0)),
        ("0h", Some(0)),
        ("0m", Some(0)),
        ("0h0m", Some(0)),
        ("10a", None),
        ("hm", None),
        ("", None),
    ];
    for (input, minutes) in data {
        let parsed = duration_value_parser(input).ok();
        assert_eq!(parsed, minutes);
    }
}

#[test]
fn duration_parser_error_kinds() {
    assert_eq!(
        duration_value_parser("10a"),
        Err(DurationError::UnexpectedCharacter('a'))
    );
    assert_eq!(
        duration_value_parser("hm"),
        Err(DurationError::NumberExpectedBeforeUnit)
    );
    assert_eq!(duration_value_parser(""), Err(DurationError::NumberExpected));
    assert_eq!(duration_value_parser("1m5"), Err(DurationError::UnknownUnit(5)));
    assert_eq!(duration_value_parser("2h90"), Ok(2 * 60 + 90));
}

#[test]
fn weekday_parser() {
    let data = [
        ("monday", Some(Weekday::Monday)),
        ("tuesday", Some(Weekday::Tuesday)),
        ("wednesday", Some(Weekday::Wednesday)),
        ("thursday", Some(Weekday::Thursday)),
        ("friday", Some(Weekday::Friday)),
        ("saturday", Some(Weekday::Saturday)),
        ("sunday", Some(Weekday::Sunday)),
        ("tursday", None),
        ("", None),
        ("mon", Some(Weekday::Monday)),
        ("tue", Some(Weekday::Tuesday)),
        ("wed", Some(Weekday::Wednesday)),
        ("thu", Some(Weekday::Thursday)),
        ("fri", Some(Weekday::Friday)),
        ("sat", Some(Weekday::Saturday)),
        ("sun", Some(Weekday::Sunday)),
    ];
    for (input, output) in data {
        let parsed = weekday_value_parser(input).ok();
        assert_eq!(parsed, output);
    }
}

#[test]
fn weekday_parser_ignores_case() {
    assert_eq!(weekday_value_parser("MONDAY").ok(), Some(Weekday::Monday));
    assert_eq!(weekday_value_parser("Fri").ok(), Some(Weekday::Friday));
}

#[test]
fn log_format_parse() {
    assert_eq!(LogFormat::parse("day"), Ok(LogFormat::Day));
    assert_eq!(LogFormat::parse("Day"), Ok(LogFormat::Day));
    assert_eq!(LogFormat::parse("ISSUE"), Ok(LogFormat::Issue));
    assert!(LogFormat::parse("task").is_err());
    assert_eq!(LogFormat::default(), LogFormat::Day);
}
