use interim::datetime::{Date, DateTime, Time};
use interim::Dialect::{Uk, Us};
use interim::{parse_date_string, Dialect};

/// Date-time representing 2018-03-21T11:00:00+02:00.
fn base() -> DateTime {
    DateTime::new(
        7200,
        Date::from_ymd(2018, 3, 21).unwrap(),
        Time::from_hms(11, 0, 0).unwrap(),
    )
}

/// RFC3339 rendering, e.g. 2018-03-21T11:00:00+02:00.
fn render(dt: &DateTime) -> String {
    let (sign, off) = if dt.offset < 0 {
        ('-', -dt.offset)
    } else {
        ('+', dt.offset)
    };
    format!(
        "{:04}-{:02}-{:02}T{:02}:{:02}:{:02}{}{:02}:{:02}",
        dt.date.year,
        dt.date.month,
        dt.date.day,
        dt.time.hour,
        dt.time.min,
        dt.time.sec,
        sign,
        off / 3600,
        (off % 3600) / 60
    )
}

fn check(input: &str, dialect: Dialect, expected: &str) {
    let date = match parse_date_string(input, base(), dialect) {
        Ok(date) => date,
        Err(e) => {
            panic!("unexpected error attempting to parse {input:?}\n\t{e:?}")
        }
    };

    let actual = render(&date);
    assert_eq!(
        actual, expected,
        "unexpected output attempting to format {input:?}.\nexpected: {expected:?}\n  parsed: {date:?} [{actual:?}]"
    );
}

#[test]
fn datetime_acceptance() {
    // Day of week - relative to today. May have a time part
    check("friday", Uk, "2018-03-23T00:00:00+02:00");
    check("friday 10:30", Uk, "2018-03-23T10:30:00+02:00");
    check("friday 8pm", Uk, "2018-03-23T20:00:00+02:00");
    check("12am", Uk, "2018-03-21T00:00:00+02:00");
    check("12pm", Uk, "2018-03-21T12:00:00+02:00");
    check("7:26 AM", Uk, "2018-03-21T07:26:00+02:00");
    check("7:26 PM", Uk, "2018-03-21T19:26:00+02:00");

    // The day of week is the _next_ day after today, so "Tuesday" is the next Tuesday after Wednesday
    check("tues", Uk, "2018-03-27T00:00:00+02:00");

    // The expression 'next Monday' is ambiguous; in the US it means the day following (same as 'Monday')
    // (This is how the `date` command interprets it)
    check("next mon", Us, "2018-03-26T00:00:00+02:00");
    // but otherwise it means the day in the next week..
    check("next mon", Uk, "2018-04-02T00:00:00+02:00");

    check("last year", Uk, "2017-03-21T00:00:00+02:00");
    check("this year", Uk, "2018-03-21T00:00:00+02:00");
    check("next year", Uk, "2019-03-21T00:00:00+02:00");

    check("last fri 9.30", Uk, "2018-03-16T09:30:00+02:00");

    // date expressed as month, day - relative to today. May have a time part
    check("8/11", Us, "2018-08-11T00:00:00+02:00");
    check("last 8/11", Us, "2017-08-11T00:00:00+02:00");
    check("last 8/11 9am", Us, "2017-08-11T09:00:00+02:00");
    check("8/11", Uk, "2018-11-08T00:00:00+02:00");
    check("last 8/11", Uk, "2017-11-08T00:00:00+02:00");
    check("last 8/11 9am", Uk, "2017-11-08T09:00:00+02:00");
    check("April 1 8.30pm", Uk, "2018-04-01T20:30:00+02:00");

    // advance by time unit from today
    // without explicit time, use base time - otherwise override
    check("2d", Uk, "2018-03-23T11:00:00+02:00");
    check("2d 03:00", Uk, "2018-03-23T03:00:00+02:00");
    check("3 weeks", Uk, "2018-04-11T11:00:00+02:00");
    check("3h", Uk, "2018-03-21T14:00:00+02:00");
    check("6 months", Uk, "2018-09-21T00:00:00+02:00");
    check("6 months ago", Uk, "2017-09-21T00:00:00+02:00");
    check("3 hours ago", Uk, "2018-03-21T08:00:00+02:00");
    check(" -3h", Uk, "2018-03-21T08:00:00+02:00");
    check(" -3 month", Uk, "2017-12-21T00:00:00+02:00");

    // absolute date with year, month, day - formal ISO and informal UK or US
    check("2017-06-30", Uk, "2017-06-30T00:00:00+02:00");
    check("30/06/17", Uk, "2017-06-30T00:00:00+02:00");
    check("06/30/17", Us, "2017-06-30T00:00:00+02:00");

    // may be followed by time part, formal and informal
    check("2017-06-30 08:20:30", Uk, "2017-06-30T08:20:30+02:00");
    check("2017-06-30 08:20:30 +04:00", Uk, "2017-06-30T06:20:30+02:00");
    check("2017-06-30 08:20:30 +0400", Uk, "2017-06-30T06:20:30+02:00");
    check("2017-06-30T08:20:30Z", Uk, "2017-06-30T10:20:30+02:00");
    check("2017-06-30T08:20:30", Uk, "2017-06-30T08:20:30+02:00");
    check("2017-06-30 12.20", Uk, "2017-06-30T12:20:00+02:00");
    check("2017-06-30 8.20", Uk, "2017-06-30T08:20:00+02:00");
    check("2017-06-30 12.15am", Uk, "2017-06-30T00:15:00+02:00");
    check("2017-06-30 12.25pm", Uk, "2017-06-30T12:25:00+02:00");
    check("2017-06-30 12:30pm", Uk, "2017-06-30T12:30:00+02:00");
    check("2017-06-30 8.30pm", Uk, "2017-06-30T20:30:00+02:00");
    check("2017-06-30 8:30pm", Uk, "2017-06-30T20:30:00+02:00");
    check("2017-06-30 2am", Uk, "2017-06-30T02:00:00+02:00");
    check("30 June 2018", Uk, "2018-06-30T00:00:00+02:00");
    check("June 30, 2018", Uk, "2018-06-30T00:00:00+02:00");
    check("June   30,    2018", Uk, "2018-06-30T00:00:00+02:00");
}

#[test]
fn today_composes_with_time() {
    // 'today'/'now' short-circuit to a zero-day relative date, but a trailing
    // time phrase still composes on top of it
    check("today 3pm", Dialect::Uk, "2018-03-21T15:00:00+02:00");
    check("now", Dialect::Uk, "2018-03-21T11:00:00+02:00");
    check("yesterday", Dialect::Uk, "2018-03-20T11:00:00+02:00");
    check("tomorrow 8.30am", Dialect::Uk, "2018-03-22T08:30:00+02:00");
}

#[test]
fn month_day_clamping() {
    // one month after Jan 30: Feb 28 in a plain year, Feb 29 in a leap year
    let jan30_2018 = DateTime::new(
        0,
        Date::from_ymd(2018, 1, 30).unwrap(),
        Time::from_hms(0, 0, 0).unwrap(),
    );
    let got = parse_date_string("1 month", jan30_2018, Dialect::Uk).unwrap();
    assert_eq!((got.date.year, got.date.month, got.date.day), (2018, 2, 28));

    let jan30_2020 = DateTime::new(
        0,
        Date::from_ymd(2020, 1, 30).unwrap(),
        Time::from_hms(0, 0, 0).unwrap(),
    );
    let got = parse_date_string("1 month", jan30_2020, Dialect::Uk).unwrap();
    assert_eq!((got.date.year, got.date.month, got.date.day), (2020, 2, 29));
}

#[test]
fn offset_precedence() {
    // colon and packed offsets agree, and differ from the offset-free parse
    // by exactly the offset delta
    let colon = parse_date_string("2017-06-30 08:20:30 +04:00", base(), Dialect::Uk).unwrap();
    let packed = parse_date_string("2017-06-30 08:20:30 +0400", base(), Dialect::Uk).unwrap();
    let plain = parse_date_string("2017-06-30 08:20:30", base(), Dialect::Uk).unwrap();
    assert_eq!(colon, packed);
    // +04:00 wall clock shown at +02:00 ambient: two hours earlier
    assert_eq!((plain.time.hour, colon.time.hour), (8, 6));
}

#[test]
fn calendar_edges() {
    // leap-year day accepted, plain-year day rejected
    assert!(parse_date_string("2020-02-29", base(), Dialect::Uk).is_ok());
    assert!(parse_date_string("2019-02-29", base(), Dialect::Uk).is_err());
    // day crossing a year boundary
    check("2017-12-31 23:00", Dialect::Uk, "2017-12-31T23:00:00+02:00");
    check("2 days", Dialect::Uk, "2018-03-23T11:00:00+02:00");
}

#[test]
fn two_digit_year_pivot() {
    // slash-form years pivot between 1941 and 2040; longer years are literal
    check("01/02/40", Uk, "2040-02-01T00:00:00+02:00");
    check("01/02/41", Uk, "1941-02-01T00:00:00+02:00");
    check("01/02/99", Uk, "1999-02-01T00:00:00+02:00");
    check("01/02/00", Uk, "2000-02-01T00:00:00+02:00");
    check("01/02/0100", Uk, "0100-02-01T00:00:00+02:00");
    // a bare number is a year
    check("2020", Uk, "2020-01-01T00:00:00+02:00");
}

#[test]
fn same_day_weekday_swings_on_time() {
    // reference is Friday 2018-03-23 11:00; when a weekday resolution lands
    // on the reference day itself, the parsed time decides the week
    let friday = DateTime::new(
        7200,
        Date::from_ymd(2018, 3, 23).unwrap(),
        Time::from_hms(11, 0, 0).unwrap(),
    );
    let later = parse_date_string("fri 8pm", friday, Uk).unwrap();
    assert_eq!((later.date.day, later.time.hour), (23, 20));
    let earlier = parse_date_string("fri 9am", friday, Uk).unwrap();
    assert_eq!((earlier.date.day, earlier.time.hour), (30, 9));
    let last_later = parse_date_string("last fri 8pm", friday, Uk).unwrap();
    assert_eq!((last_later.date.day, last_later.time.hour), (16, 20));
    let last_earlier = parse_date_string("last fri 9am", friday, Uk).unwrap();
    assert_eq!((last_earlier.date.day, last_earlier.time.hour), (23, 9));
}

#[test]
fn hour_overflow_normalizes_into_days() {
    // an hour of 24 or more advances whole days
    check("2017-06-30 36:30", Uk, "2017-07-01T12:30:00+02:00");
    check("2017-12-31 24:00", Uk, "2018-01-01T00:00:00+02:00");
}

#[test]
fn fractional_seconds_scale_to_micros() {
    // the fraction is a decimal fraction of a second: ".5" is half a second
    let half = parse_date_string("2017-06-30 08:20:30.5", base(), Uk).unwrap();
    assert_eq!(half.time.micros, 500_000);
    // leading zeros count: ".0500" is five hundredths
    let five_hundredths = parse_date_string("2017-06-30 08:20:30.0500", base(), Uk).unwrap();
    assert_eq!(five_hundredths.time.micros, 50_000);
    let fine = parse_date_string("2017-06-30 08:20:30.1234", base(), Uk).unwrap();
    assert_eq!(fine.time.micros, 123_400);
    assert_eq!((fine.time.hour, fine.time.min, fine.time.sec), (8, 20, 30));
}

#[test]
fn offset_directly_after_minutes() {
    // a numeric UTC offset may follow the minutes without seconds
    check("2017-06-30 08:20 +04:00", Uk, "2017-06-30T06:20:00+02:00");
    check("2017-06-30 08:20 +0400", Uk, "2017-06-30T06:20:00+02:00");
    check("2017-06-30 08:20 -0700", Uk, "2017-06-30T17:20:00+02:00");
    check("2017-06-30T08:20Z", Uk, "2017-06-30T10:20:00+02:00");
}

#[test]
fn regression_12() {
    // an explicit offset equal to the reference's own offset changes nothing
    let now = DateTime::new(
        -25200,
        Date::from_ymd(2024, 1, 1).unwrap(),
        Time::from_hms(12, 0, 0).unwrap(),
    );
    let without_timezone = parse_date_string("2024-06-01 12:00:00", now, Dialect::Us).unwrap();
    let with_timezone = parse_date_string("2024-06-01 12:00:00 -07:00", now, Dialect::Us).unwrap();

    assert_eq!(without_timezone, with_timezone);
    assert_eq!(render(&with_timezone), "2024-06-01T12:00:00-07:00");
}

#[test]
fn iso_round_trip_rendering() {
    // parsing a rendered date gives the date back, at midnight
    for (y, m, d) in [(2018i32, 3u8, 21u8), (2000, 2, 29), (1999, 12, 31), (7, 1, 1)] {
        let date = Date::from_ymd(y, m, d).unwrap();
        let text = format!("{y:04}-{m:02}-{d:02}");
        let got = parse_date_string(&text, base(), Dialect::Uk).unwrap();
        assert_eq!(got.date, date);
        assert_eq!((got.time.hour, got.time.min, got.time.sec, got.time.micros), (0, 0, 0, 0));
        assert_eq!(got.offset, 7200);
    }
}
