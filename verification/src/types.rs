//! The intermediate specification data model produced by the parser —
//! `DateSpec`, `TimeSpec`, `ByName`, `Interval` — the fixed vocabulary tables
//! (weekday names, month names, duration units), and the resolution
//! algorithm that combines a parsed specification with a reference date-time.

use vstd::prelude::*;

use crate::datetime::{
    add_days, add_months, add_secs, date_lt, mk_date, mk_time, midnight,
    time_lt, time_with_micros, valid_offset, weekday_of, with_offset_spec, Date, DateTime, Time,
};
use crate::Dialect;

verus! {

/// Modifies how a named or relative date is resolved against "now";
/// `Here` means no explicit next/last was given.
#[derive(Debug, Clone, Copy, PartialEq, Eq, Structural)]
pub enum Direction {
    Next,
    Last,
    Here,
}

/// All expressions modifiable with next/last: 'fri', 'jul', '5 may'.
#[derive(Debug, Clone, Copy, PartialEq, Eq)]
pub enum ByName {
    WeekDay(u8),
    MonthName(u32),
    DayMonth { day: u32, month: u32 },
}

/// A fully specified year/month/day, not yet validated against the calendar.
#[derive(Debug, Clone, Copy, PartialEq, Eq)]
pub struct AbsDate {
    pub year: i32,
    pub month: u32,
    pub day: u32,
}

/// A generic amount of time, in either seconds, days, or months.
///
/// The three units are never converted into one another: a month is not a
/// fixed number of days, and a day is treated as a calendar day rather than
/// a fixed number of seconds.
#[derive(Debug, Clone, Copy, PartialEq, Eq)]
pub enum Interval {
    Seconds(i32),
    Days(i32),
    Months(i32),
}

/// The parsed date portion of the input text.
#[derive(Debug, Clone, Copy, PartialEq, Eq)]
pub enum DateSpec {
    Absolute(AbsDate),
    Relative(Interval),
    FromName(ByName, Direction),
}

/// The parsed time portion of the input text. The hour may exceed 23 as an
/// overflow signal from interval arithmetic; resolution normalizes it by
/// advancing whole days. The offset, when present, is a UTC offset in seconds.
#[derive(Debug, Clone, Copy, PartialEq, Eq)]
pub struct TimeSpec {
    pub hour: u32,
    pub min: u32,
    pub sec: u32,
    pub microsec: u32,
    pub offset: Option<i64>,
}

/// The parser's top-level output: both parts independently optional.
#[derive(Debug, Clone, Copy, PartialEq, Eq)]
pub struct DateTimeSpec {
    pub date: Option<DateSpec>,
    pub time: Option<TimeSpec>,
}

// ---------------------------------------------------------------------------
// Vocabulary tables
// ---------------------------------------------------------------------------

/// The numeric value of a character with ASCII upper-case letters folded to
/// lower case.
pub open spec fn lc(c: char) -> int {
    if 65 <= c as u32 <= 90 {
        c as u32 + 32
    } else {
        c as u32 as int
    }
}

pub(crate) fn lc_exec(c: char) -> (r: u32)
    ensures
        r == lc(c),
{
    let v = c as u32;
    if 65 <= v && v <= 90 {
        v + 32
    } else {
        v
    }
}

/// Case-insensitive equality of two words.
pub open spec fn eq_ic(a: Seq<char>, b: Seq<char>) -> bool {
    a.len() == b.len() && forall|i: int| 0 <= i < a.len() ==> lc(#[trigger] a[i]) == lc(b[i])
}

/// The word matches on its first three letters, case-insensitively.
/// Words longer than 16 characters never match any table entry.
pub open spec fn matches3(s: Seq<char>, a: char, b: char, c: char) -> bool {
    3 <= s.len() <= 16 && lc(s[0]) == a as u32 && lc(s[1]) == b as u32 && lc(s[2]) == c as u32
}

/// The word is exactly the one given letter, case-insensitively.
pub open spec fn matches1(s: Seq<char>, a: char) -> bool {
    s.len() == 1 && lc(s[0]) == a as u32
}

/// The word starts with the two given letters, case-insensitively.
pub open spec fn matches2(s: Seq<char>, a: char, b: char) -> bool {
    2 <= s.len() <= 16 && lc(s[0]) == a as u32 && lc(s[1]) == b as u32
}

/// Weekday lookup, Monday = 0 (same 'count days from monday' convention as
/// the usual calendar libraries).
pub open spec fn week_day_spec(s: Seq<char>) -> Option<u8> {
    if matches3(s, 's', 'u', 'n') {
        Some(6u8)
    } else if matches3(s, 'm', 'o', 'n') {
        Some(0u8)
    } else if matches3(s, 't', 'u', 'e') {
        Some(1u8)
    } else if matches3(s, 'w', 'e', 'd') {
        Some(2u8)
    } else if matches3(s, 't', 'h', 'u') {
        Some(3u8)
    } else if matches3(s, 'f', 'r', 'i') {
        Some(4u8)
    } else if matches3(s, 's', 'a', 't') {
        Some(5u8)
    } else {
        None
    }
}

/// Month-name lookup, January = 1.
pub open spec fn month_name_spec(s: Seq<char>) -> Option<u32> {
    if matches3(s, 'j', 'a', 'n') {
        Some(1u32)
    } else if matches3(s, 'f', 'e', 'b') {
        Some(2u32)
    } else if matches3(s, 'm', 'a', 'r') {
        Some(3u32)
    } else if matches3(s, 'a', 'p', 'r') {
        Some(4u32)
    } else if matches3(s, 'm', 'a', 'y') {
        Some(5u32)
    } else if matches3(s, 'j', 'u', 'n') {
        Some(6u32)
    } else if matches3(s, 'j', 'u', 'l') {
        Some(7u32)
    } else if matches3(s, 'a', 'u', 'g') {
        Some(8u32)
    } else if matches3(s, 's', 'e', 'p') {
        Some(9u32)
    } else if matches3(s, 'o', 'c', 't') {
        Some(10u32)
    } else if matches3(s, 'n', 'o', 'v') {
        Some(11u32)
    } else if matches3(s, 'd', 'e', 'c') {
        Some(12u32)
    } else {
        None
    }
}

/// Duration-unit lookup: a unit template of magnitude one. The bare letter
/// "m" always means minutes, never months; months require the "mo" prefix.
pub open spec fn time_unit_spec(s: Seq<char>) -> Option<Interval> {
    if matches1(s, 's') || matches2(s, 's', 'e') {
        Some(Interval::Seconds(1))
    } else if matches1(s, 'm') || matches2(s, 'm', 'i') {
        Some(Interval::Seconds(60))
    } else if matches1(s, 'h') || matches2(s, 'h', 'o') {
        Some(Interval::Seconds(3600))
    } else if matches1(s, 'd') || matches2(s, 'd', 'a') {
        Some(Interval::Days(1))
    } else if matches1(s, 'w') || matches2(s, 'w', 'e') {
        Some(Interval::Days(7))
    } else if matches2(s, 'm', 'o') {
        Some(Interval::Months(1))
    } else if matches1(s, 'y') || matches2(s, 'y', 'e') {
        Some(Interval::Months(12))
    } else {
        None
    }
}

pub(crate) fn week_day(s: &Vec<char>) -> (r: Option<u8>)
    ensures
        r == week_day_spec(s@),
{
    if s.len() < 3 || s.len() > 16 {
        return None;
    }
    let c0 = lc_exec(s[0]);
    let c1 = lc_exec(s[1]);
    let c2 = lc_exec(s[2]);
    if c0 == 's' as u32 && c1 == 'u' as u32 && c2 == 'n' as u32 {
        Some(6)
    } else if c0 == 'm' as u32 && c1 == 'o' as u32 && c2 == 'n' as u32 {
        Some(0)
    } else if c0 == 't' as u32 && c1 == 'u' as u32 && c2 == 'e' as u32 {
        Some(1)
    } else if c0 == 'w' as u32 && c1 == 'e' as u32 && c2 == 'd' as u32 {
        Some(2)
    } else if c0 == 't' as u32 && c1 == 'h' as u32 && c2 == 'u' as u32 {
        Some(3)
    } else if c0 == 'f' as u32 && c1 == 'r' as u32 && c2 == 'i' as u32 {
        Some(4)
    } else if c0 == 's' as u32 && c1 == 'a' as u32 && c2 == 't' as u32 {
        Some(5)
    } else {
        None
    }
}

pub(crate) fn month_name(s: &Vec<char>) -> (r: Option<u32>)
    ensures
        r == month_name_spec(s@),
{
    if s.len() < 3 || s.len() > 16 {
        return None;
    }
    let c0 = lc_exec(s[0]);
    let c1 = lc_exec(s[1]);
    let c2 = lc_exec(s[2]);
    if c0 == 'j' as u32 && c1 == 'a' as u32 && c2 == 'n' as u32 {
        Some(1)
    } else if c0 == 'f' as u32 && c1 == 'e' as u32 && c2 == 'b' as u32 {
        Some(2)
    } else if c0 == 'm' as u32 && c1 == 'a' as u32 && c2 == 'r' as u32 {
        Some(3)
    } else if c0 == 'a' as u32 && c1 == 'p' as u32 && c2 == 'r' as u32 {
        Some(4)
    } else if c0 == 'm' as u32 && c1 == 'a' as u32 && c2 == 'y' as u32 {
        Some(5)
    } else if c0 == 'j' as u32 && c1 == 'u' as u32 && c2 == 'n' as u32 {
        Some(6)
    } else if c0 == 'j' as u32 && c1 == 'u' as u32 && c2 == 'l' as u32 {
        Some(7)
    } else if c0 == 'a' as u32 && c1 == 'u' as u32 && c2 == 'g' as u32 {
        Some(8)
    } else if c0 == 's' as u32 && c1 == 'e' as u32 && c2 == 'p' as u32 {
        Some(9)
    } else if c0 == 'o' as u32 && c1 == 'c' as u32 && c2 == 't' as u32 {
        Some(10)
    } else if c0 == 'n' as u32 && c1 == 'o' as u32 && c2 == 'v' as u32 {
        Some(11)
    } else if c0 == 'd' as u32 && c1 == 'e' as u32 && c2 == 'c' as u32 {
        Some(12)
    } else {
        None
    }
}

pub(crate) fn time_unit(s: &Vec<char>) -> (r: Option<Interval>)
    ensures
        r == time_unit_spec(s@),
{
    if s.len() == 0 || s.len() > 16 {
        return None;
    }
    let c0 = lc_exec(s[0]);
    let one = s.len() == 1;
    let c1 = if one {
        0
    } else {
        lc_exec(s[1])
    };
    if (one && c0 == 's' as u32) || (!one && c0 == 's' as u32 && c1 == 'e' as u32) {
        Some(Interval::Seconds(1))
    } else if (one && c0 == 'm' as u32) || (!one && c0 == 'm' as u32 && c1 == 'i' as u32) {
        Some(Interval::Seconds(60))
    } else if (one && c0 == 'h' as u32) || (!one && c0 == 'h' as u32 && c1 == 'o' as u32) {
        Some(Interval::Seconds(3600))
    } else if (one && c0 == 'd' as u32) || (!one && c0 == 'd' as u32 && c1 == 'a' as u32) {
        Some(Interval::Days(1))
    } else if (one && c0 == 'w' as u32) || (!one && c0 == 'w' as u32 && c1 == 'e' as u32) {
        Some(Interval::Days(7))
    } else if !one && c0 == 'm' as u32 && c1 == 'o' as u32 {
        Some(Interval::Months(1))
    } else if (one && c0 == 'y' as u32) || (!one && c0 == 'y' as u32 && c1 == 'e' as u32) {
        Some(Interval::Months(12))
    } else {
        None
    }
}

// ---------------------------------------------------------------------------
// Next/last disambiguation
// ---------------------------------------------------------------------------

/// Correction applied when a tentatively resolved date falls on the wrong
/// side of the reference: step back one unit for `Last` when the date is
/// after the base, forward one unit for `Next` when it is before.
pub open spec fn next_last_date(date: Date, base: Date, direct: Direction) -> Option<i32> {
    if date_lt(base, date) && direct is Last {
        Some(-1i32)
    } else if date_lt(date, base) && direct is Next {
        Some(1i32)
    } else {
        None
    }
}

/// The same correction, deciding by time of day (used when a weekday
/// resolution lands on the reference day itself).
pub open spec fn next_last_time(time: Time, base: Time, direct: Direction) -> Option<i32> {
    if time_lt(base, time) && direct is Last {
        Some(-1i32)
    } else if time_lt(time, base) && direct is Next {
        Some(1i32)
    } else {
        None
    }
}

fn date_lt_exec(a: &Date, b: &Date) -> (r: bool)
    ensures
        r == date_lt(*a, *b),
{
    a.year < b.year || (a.year == b.year && (a.month < b.month || (a.month == b.month && a.day
        < b.day)))
}

fn time_lt_exec(a: &Time, b: &Time) -> (r: bool)
    ensures
        r == time_lt(*a, *b),
{
    a.hour < b.hour || (a.hour == b.hour && (a.min < b.min || (a.min == b.min && (a.sec < b.sec
        || (a.sec == b.sec && a.micros < b.micros)))))
}

/// Implements the next/last direction in expressions like 'next friday' and
/// 'last 4 july'.
pub fn next_last_direction(date: &Date, base: &Date, direct: Direction) -> (r: Option<i32>)
    ensures
        r == next_last_date(*date, *base, direct),
{
    if date_lt_exec(base, date) && matches!(direct, Direction::Last) {
        Some(-1)
    } else if date_lt_exec(date, base) && matches!(direct, Direction::Next) {
        Some(1)
    } else {
        None
    }
}

fn next_last_direction_time(time: &Time, base: &Time, direct: Direction) -> (r: Option<i32>)
    ensures
        r == next_last_time(*time, *base, direct),
{
    if time_lt_exec(base, time) && matches!(direct, Direction::Last) {
        Some(-1)
    } else if time_lt_exec(time, base) && matches!(direct, Direction::Next) {
        Some(1)
    } else {
        None
    }
}

// ---------------------------------------------------------------------------
// Resolution
// ---------------------------------------------------------------------------

/// Resolution of a parsed time of day onto a given date: hours at or above
/// 24 first advance whole days, a parsed UTC offset then re-reads the
/// wall-clock fields at that offset.
pub open spec fn ts_resolve(ts: TimeSpec, tz: i32, date: Date) -> Option<DateTime> {
    match add_days(date, ts.hour as int / 24) {
        None => None,
        Some(d2) => match mk_time(ts.hour % 24, ts.min, ts.sec) {
            None => None,
            Some(t) => match time_with_micros(t, ts.microsec) {
                None => None,
                Some(t2) => {
                    let dt = DateTime { offset: tz, date: d2, time: t2 };
                    match ts.offset {
                        Some(offs) => with_offset_spec(dt, offs as int),
                        None => Some(dt),
                    }
                },
            },
        },
    }
}

impl TimeSpec {
    pub fn new(hour: u32, min: u32, sec: u32, microsec: u32) -> (r: Self)
        ensures
            r == (TimeSpec { hour, min, sec, microsec, offset: None }),
    {
        Self { hour, min, sec, microsec, offset: None }
    }

    pub fn with_offset(self, offset: i64) -> (r: Self)
        ensures
            r == (TimeSpec { offset: Some(offset), ..self }),
    {
        Self { offset: Some(offset), ..self }
    }

    /// Applies this time of day to the given date under the given ambient
    /// UTC offset.
    pub fn into_date_time(self, tz: i32, date: Date) -> (r: Option<DateTime>)
        requires
            valid_offset(tz),
            date.wf(),
        ensures
            r == ts_resolve(self, tz, date),
    {
        let date = match date.offset_days((self.hour / 24) as i64) {
            Some(d) => d,
            None => {
                return None;
            },
        };
        let time = match Time::from_hms(self.hour % 24, self.min, self.sec) {
            Some(t) => t,
            None => {
                return None;
            },
        };
        let time = match time.with_micros(self.microsec) {
            Some(t) => t,
            None => {
                return None;
            },
        };
        if let Some(offs) = self.offset {
            DateTime::new(tz, date, time).with_offset(offs)
        } else {
            Some(DateTime::new(tz, date, time))
        }
    }
}

/// The signed magnitude of an interval, disregarding its unit.
pub open spec fn iv_val(iv: Interval) -> int {
    match iv {
        Interval::Seconds(x) => x as int,
        Interval::Days(x) => x as int,
        Interval::Months(x) => x as int,
    }
}

/// Scalar multiplication of an interval: distributes over the payload and
/// never changes the unit.
pub open spec fn iv_mul(iv: Interval, rhs: int) -> Interval {
    match iv {
        Interval::Seconds(x) => Interval::Seconds((x * rhs) as i32),
        Interval::Days(x) => Interval::Days((x * rhs) as i32),
        Interval::Months(x) => Interval::Months((x * rhs) as i32),
    }
}

/// Resolution of a relative interval against a reference date-time.
/// A seconds interval shifts the full reference instant and ignores any
/// separately parsed time of day (a number of seconds is itself a time
/// specification); a days interval keeps the reference's own time of day
/// unless one was parsed; a months interval defaults to midnight.
pub open spec fn iv_resolve(iv: Interval, base: DateTime, ts: Option<TimeSpec>) -> Option<
    DateTime,
> {
    match iv {
        Interval::Seconds(secs) => add_secs(base, secs as int),
        Interval::Days(days) => match add_days(base.date, days as int) {
            None => None,
            Some(d2) => match ts {
                Some(t) => ts_resolve(t, base.offset, d2),
                None => Some(DateTime { offset: base.offset, date: d2, time: base.time }),
            },
        },
        Interval::Months(months) => match add_months(base.date, months as int) {
            None => None,
            Some(d2) => match ts {
                Some(t) => ts_resolve(t, base.offset, d2),
                None => Some(DateTime { offset: base.offset, date: d2, time: midnight() }),
            },
        },
    }
}

impl Interval {
    /// Scales this interval, applying a sign and repeat count together.
    pub fn mul(self, rhs: i32) -> (r: Interval)
        requires
            -0x8000_0000 <= iv_val(self) * rhs <= 0x7fff_ffff,
        ensures
            r == iv_mul(self, rhs as int),
    {
        match self {
            Interval::Seconds(x) => Interval::Seconds(x * rhs),
            Interval::Days(x) => Interval::Days(x * rhs),
            Interval::Months(x) => Interval::Months(x * rhs),
        }
    }

    /// Applies this interval to the reference date-time, together with any
    /// separately parsed time of day.
    pub(crate) fn into_date_time(self, base: DateTime, ts: Option<TimeSpec>) -> (r: Option<
        DateTime,
    >)
        requires
            base.wf(),
        ensures
            r == iv_resolve(self, base, ts),
    {
        match self {
            Interval::Seconds(secs) => base.offset_seconds(secs as i64),
            Interval::Days(days) => {
                let (tz, date, time) = base.split();
                let date = match date.offset_days(days as i64) {
                    Some(d) => d,
                    None => {
                        return None;
                    },
                };
                match ts {
                    Some(t) => t.into_date_time(tz, date),
                    None => Some(DateTime::new(tz, date, time)),
                }
            },
            Interval::Months(months) => {
                let (tz, date, _) = base.split();
                let date = match date.offset_months(months) {
                    Some(d) => d,
                    None => {
                        return None;
                    },
                };
                match ts {
                    Some(t) => t.into_date_time(tz, date),
                    None => {
                        let mid = match Time::from_hms(0, 0, 0) {
                            Some(t) => t,
                            None => {
                                return None;
                            },
                        };
                        Some(DateTime::new(tz, date, mid))
                    },
                }
            },
        }
    }
}

impl AbsDate {
    /// Validates this year/month/day against the calendar. Month and day are
    /// narrowed to eight bits first, exactly as the resolution layer reads
    /// them.
    pub fn into_date(self) -> (r: Option<Date>)
        ensures
            r == mk_date(self.year, self.month as u8, self.day as u8),
    {
        Date::from_ymd(self.year, self.month as u8, self.day as u8)
    }
}

/// Resolution of a named date (weekday, month name, or day-and-month)
/// against a reference date-time under the dialect's next/last rules.
pub open spec fn byname_resolve(
    bn: ByName,
    base: DateTime,
    ts0: Option<TimeSpec>,
    dialect: Dialect,
    direct0: Direction,
) -> Option<DateTime> {
    let tz = base.offset;
    let base_date = base.date;
    let base_time = base.time;
    let ts = if ts0 is Some {
        ts0->0
    } else {
        TimeSpec { hour: 0, min: 0, sec: 0, microsec: 0, offset: None }
    };
    let this_year = base_date.year;
    match bn {
        ByName::WeekDay(nd) => {
            let extra_week = direct0 is Next && dialect is Uk;
            let direct = if direct0 is Here {
                Direction::Next
            } else {
                direct0
            };
            let diff_days = nd - weekday_of(base_date);
            match add_days(base_date, diff_days) {
                None => None,
                Some(d1) => {
                    let s2 = match next_last_date(d1, base_date, direct) {
                        Some(c) => add_days(d1, 7 * c),
                        None => Some(d1),
                    };
                    match s2 {
                        None => None,
                        Some(d2) => {
                            let s3 = if extra_week {
                                add_days(d2, 7)
                            } else {
                                Some(d2)
                            };
                            match s3 {
                                None => None,
                                Some(d3) => {
                                    if diff_days == 0 {
                                        match mk_time(ts.hour, ts.min, ts.sec) {
                                            None => None,
                                            Some(this_time) => {
                                                let s4 = match next_last_time(
                                                    this_time,
                                                    base_time,
                                                    direct,
                                                ) {
                                                    Some(c) => add_days(d3, 7 * c),
                                                    None => Some(d3),
                                                };
                                                match s4 {
                                                    None => None,
                                                    Some(d4) => ts_resolve(ts, tz, d4),
                                                }
                                            },
                                        }
                                    } else {
                                        ts_resolve(ts, tz, d3)
                                    }
                                },
                            }
                        },
                    }
                },
            }
        },
        ByName::MonthName(month) => {
            match mk_date(this_year, month as u8, 1) {
                None => None,
                Some(d1) => {
                    let s2 = match next_last_date(d1, base_date, direct0) {
                        Some(c) => mk_date((this_year + c) as i32, month as u8, 1),
                        None => Some(d1),
                    };
                    match s2 {
                        None => None,
                        Some(d2) => ts_resolve(ts, tz, d2),
                    }
                },
            }
        },
        ByName::DayMonth { day, month } => {
            match mk_date(this_year, month as u8, day as u8) {
                None => None,
                Some(d1) => {
                    let s2 = match next_last_date(d1, base_date, direct0) {
                        Some(c) => mk_date((this_year + c) as i32, month as u8, day as u8),
                        None => Some(d1),
                    };
                    match s2 {
                        None => None,
                        Some(d2) => ts_resolve(ts, tz, d2),
                    }
                },
            }
        },
    }
}

impl ByName {
    /// Resolves this named date against the reference date-time, applying
    /// dialect-sensitive next/last disambiguation and any parsed time of day.
    ///
    /// A plain weekday name means the same as 'next'; an explicit 'next'
    /// weekday additionally moves one week forward in the UK dialect.
    pub fn into_date_time(
        self,
        base: DateTime,
        ts: Option<TimeSpec>,
        dialect: Dialect,
        direct: Direction,
    ) -> (r: Option<DateTime>)
        requires
            base.wf(),
        ensures
            r == byname_resolve(self, base, ts, dialect, direct),
    {
        let (tz, base_date, base_time) = base.split();
        let ts = match ts {
            Some(t) => t,
            None => TimeSpec::new(0, 0, 0, 0),
        };
        let this_year = base_date.year();
        let date = match self {
            ByName::WeekDay(nd) => {
                let mut extra_week = false;
                let mut direct = direct;
                match direct {
                    Direction::Here => {
                        direct = Direction::Next;
                    },
                    Direction::Next => {
                        if matches!(dialect, Dialect::Uk) {
                            extra_week = true;
                        }
                    },
                    _ => {},
                }
                let this_day = base_date.weekday() as i64;
                let that_day = nd as i64;
                let diff_days = that_day - this_day;
                let mut date = match base_date.offset_days(diff_days) {
                    Some(d) => d,
                    None => {
                        return None;
                    },
                };
                if let Some(correct) = next_last_direction(&date, &base_date, direct) {
                    date = match date.offset_days(7 * correct as i64) {
                        Some(d) => d,
                        None => {
                            return None;
                        },
                    };
                }
                if extra_week {
                    date = match date.offset_days(7) {
                        Some(d) => d,
                        None => {
                            return None;
                        },
                    };
                }
                if diff_days == 0 {
                    // same day: comparing times determines which way we swing
                    let this_time = match Time::from_hms(ts.hour, ts.min, ts.sec) {
                        Some(t) => t,
                        None => {
                            return None;
                        },
                    };
                    if let Some(correct) = next_last_direction_time(&this_time, &base_time, direct)
                        {
                        date = match date.offset_days(7 * correct as i64) {
                            Some(d) => d,
                            None => {
                                return None;
                            },
                        };
                    }
                }
                date
            },
            ByName::MonthName(month) => {
                let mut date = match Date::from_ymd(this_year, month as u8, 1) {
                    Some(d) => d,
                    None => {
                        return None;
                    },
                };
                if let Some(correct) = next_last_direction(&date, &base_date, direct) {
                    date = match Date::from_ymd(this_year + correct, month as u8, 1) {
                        Some(d) => d,
                        None => {
                            return None;
                        },
                    };
                }
                date
            },
            ByName::DayMonth { day, month } => {
                let mut date = match Date::from_ymd(this_year, month as u8, day as u8) {
                    Some(d) => d,
                    None => {
                        return None;
                    },
                };
                if let Some(correct) = next_last_direction(&date, &base_date, direct) {
                    date = match Date::from_ymd(this_year + correct, month as u8, day as u8) {
                        Some(d) => d,
                        None => {
                            return None;
                        },
                    };
                }
                date
            },
        };
        ts.into_date_time(tz, date)
    }
}

/// Resolution of the parsed date portion against a reference date-time,
/// together with any parsed time of day. An absolute date without a time
/// resolves to midnight.
pub open spec fn ds_resolve(
    ds: DateSpec,
    base: DateTime,
    ts: Option<TimeSpec>,
    dialect: Dialect,
) -> Option<DateTime> {
    match ds {
        DateSpec::Absolute(ad) => match mk_date(ad.year, ad.month as u8, ad.day as u8) {
            None => None,
            Some(d) => match ts {
                Some(t) => ts_resolve(t, base.offset, d),
                None => Some(DateTime { offset: base.offset, date: d, time: midnight() }),
            },
        },
        DateSpec::Relative(skip) => iv_resolve(skip, base, ts),
        DateSpec::FromName(byname, direct) => byname_resolve(byname, base, ts, dialect, direct),
    }
}

impl DateSpec {
    /// Resolves this date specification against the reference date-time.
    pub fn into_date_time(
        self,
        base: DateTime,
        ts: Option<TimeSpec>,
        dialect: Dialect,
    ) -> (r: Option<DateTime>)
        requires
            base.wf(),
        ensures
            r == ds_resolve(self, base, ts, dialect),
    {
        match self {
            DateSpec::Absolute(ad) => {
                let d = match ad.into_date() {
                    Some(d) => d,
                    None => {
                        return None;
                    },
                };
                match ts {
                    Some(t) => t.into_date_time(base.split().0, d),
                    None => {
                        let mid = match Time::from_hms(0, 0, 0) {
                            Some(t) => t,
                            None => {
                                return None;
                            },
                        };
                        Some(DateTime::new(base.split().0, d, mid))
                    },
                }
            },
            DateSpec::Relative(skip) => skip.into_date_time(base, ts),
            DateSpec::FromName(byname, direct) => byname.into_date_time(base, ts, dialect, direct),
        }
    }
}

} // verus!
