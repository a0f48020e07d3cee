use interim::{parse_duration, DateError, Interval, Span};

fn assert_duration(s: &str, expect: Interval) {
    let dur = parse_duration(s).unwrap();
    assert_eq!(dur, expect);
}

fn assert_duration_err(s: &str, expect: DateError) {
    let err = parse_duration(s).unwrap_err();
    assert_eq!(err, expect);
}

#[test]
fn duration_acceptance() {
    assert_duration("1 seconds", Interval::Seconds(1));
    assert_duration("24 seconds", Interval::Seconds(24));
    assert_duration("34 s", Interval::Seconds(34));
    assert_duration("34 sec", Interval::Seconds(34));

    assert_duration("6h", Interval::Seconds(6 * 3600));
    assert_duration("4 hours ago", Interval::Seconds(-4 * 3600));
    assert_duration("5 min", Interval::Seconds(5 * 60));
    assert_duration("10m", Interval::Seconds(10 * 60));
    assert_duration("15m ago", Interval::Seconds(-15 * 60));

    assert_duration("1 day", Interval::Days(1));
    assert_duration("2 days ago", Interval::Days(-2));
    assert_duration("3 weeks", Interval::Days(21));
    assert_duration("2 weeks ago", Interval::Days(-14));

    assert_duration("1 month", Interval::Months(1));
    assert_duration("6 months", Interval::Months(6));
    assert_duration("8 years", Interval::Months(12 * 8));

    // errors
    assert_duration_err("2020-01-01", DateError::UnexpectedAbsoluteDate);
    assert_duration_err("2 days 15:00", DateError::UnexpectedTime);
    assert_duration_err("tuesday", DateError::UnexpectedDate);
    assert_duration_err(
        "bananas",
        DateError::ExpectedToken("unsupported identifier", Span { start: 0, end: 7 }),
    );
}

#[test]
fn negation_equivalence() {
    // "-N unit" and "N unit ago" are the same duration
    for (neg, ago) in [
        ("-2 weeks", "2 weeks ago"),
        ("-15m", "15m ago"),
        ("-3 hours", "3 hours ago"),
        ("-6 months", "6 months ago"),
    ] {
        assert_eq!(parse_duration(neg).unwrap(), parse_duration(ago).unwrap());
    }
}

#[test]
fn ambiguous_unit_letter() {
    // bare "m" is minutes, never months; "mo" is months
    assert_duration("1m", Interval::Seconds(60));
    assert_duration("1 m", Interval::Seconds(60));
    assert_duration("1 mo", Interval::Months(1));
    assert_duration("1 minute", Interval::Seconds(60));
    assert_duration("1 month", Interval::Months(1));
}

#[test]
fn duration_error_variants() {
    assert_duration_err("", DateError::EndOfText("empty date string"));
    assert_duration_err("5", DateError::UnexpectedAbsoluteDate);
    assert_duration_err("5 bananas", DateError::ExpectedToken("month or time unit", Span { start: 2, end: 9 }));
    assert_duration_err("2 days hence", DateError::ExpectedToken("'ago'", Span { start: 7, end: 12 }));
    assert_duration_err("-", DateError::EndOfText("empty date string"));
    assert_duration_err("-junk", DateError::ExpectedToken("number", Span { start: 1, end: 5 }));
    assert_duration_err("?", DateError::MissingDate);
}
