use interim::datetime::{Date, DateTime, Time};
use interim::{parse_date_string, parse_duration, DateError, Dialect, Span};

fn base() -> DateTime {
    DateTime::new(
        7200,
        Date::from_ymd(2018, 3, 21).unwrap(),
        Time::from_hms(11, 0, 0).unwrap(),
    )
}

#[test]
fn resolution_failures() {
    // a calendar-invalid absolute date surfaces as a missing date
    assert_eq!(
        parse_date_string("2019-02-29", base(), Dialect::Uk).unwrap_err(),
        DateError::MissingDate
    );
    // a wall-clock-invalid time surfaces as a missing time
    assert_eq!(
        parse_date_string("12:99", base(), Dialect::Uk).unwrap_err(),
        DateError::MissingTime
    );
}

#[test]
fn truncated_inputs() {
    assert_eq!(
        parse_duration("2017-06-"),
        Err(DateError::EndOfText("number"))
    );
    assert_eq!(
        parse_duration("2017-06"),
        Err(DateError::EndOfText("'-'"))
    );
    assert_eq!(
        parse_date_string("friday 8", base(), Dialect::Uk).unwrap_err(),
        DateError::EndOfText("am/pm, ':' or '.'")
    );
    assert_eq!(
        parse_date_string("friday 8:", base(), Dialect::Uk).unwrap_err(),
        DateError::EndOfText("number")
    );
}

#[test]
fn error_rendering() {
    assert_eq!(
        parse_duration("bananas").unwrap_err().describe(),
        "expected unsupported identifier as position 0..7"
    );
    assert_eq!(
        DateError::EndOfText("number").describe(),
        "expected number at the end of the input"
    );
    assert_eq!(
        DateError::MissingDate.describe(),
        "date could not be parsed from input"
    );
    assert_eq!(
        DateError::MissingTime.describe(),
        "time could not be parsed from input"
    );
    assert_eq!(
        DateError::UnexpectedDate.describe(),
        "expected relative date, found a named date"
    );
    assert_eq!(
        DateError::UnexpectedAbsoluteDate.describe(),
        "expected relative date, found an exact date"
    );
    assert_eq!(
        DateError::UnexpectedTime.describe(),
        "expected duration, found time"
    );
    assert_eq!(
        DateError::ExpectedToken("date", Span { start: 12, end: 34 }).describe(),
        "expected date as position 12..34"
    );
}

#[test]
fn unrecognized_bytes() {
    // bytes outside the token alphabet become failure tokens, reported as
    // unexpected where a date was required
    assert_eq!(
        parse_date_string("?", base(), Dialect::Uk).unwrap_err(),
        DateError::MissingDate
    );
    assert_eq!(
        parse_duration("2 @days"),
        Err(DateError::ExpectedToken("date", Span { start: 2, end: 3 }))
    );
    // spans are byte offsets: a two-byte character covers two positions
    assert_eq!(
        parse_duration("2 \u{e9}days"),
        Err(DateError::ExpectedToken("date", Span { start: 2, end: 4 }))
    );
}
