//! The calendar backend: proleptic Gregorian civil dates in years 0..=9999,
//! wall-clock times, and fixed-offset date-times, together with the calendar
//! arithmetic the resolver needs (day/month offsetting with clamping, weekday
//! computation, whole-second shifts).

use vstd::prelude::*;

verus! {

// ---------------------------------------------------------------------------
// Mathematical model
// ---------------------------------------------------------------------------

pub open spec fn is_leap_year(y: int) -> bool {
    (y % 4 == 0 && y % 100 != 0) || y % 400 == 0
}

pub open spec fn year_len(y: int) -> int {
    if is_leap_year(y) {
        366
    } else {
        365
    }
}

pub open spec fn days_in_month(y: int, m: int) -> int {
    if m == 2 {
        if is_leap_year(y) {
            29
        } else {
            28
        }
    } else if m == 4 || m == 6 || m == 9 || m == 11 {
        30
    } else {
        31
    }
}

/// Days from 0000-01-01 up to the first day of year `y` (for `y >= 0`).
pub open spec fn days_before_year(y: int) -> int
    decreases y,
{
    if y <= 0 {
        0
    } else {
        days_before_year(y - 1) + year_len(y - 1)
    }
}

/// Days from `y`-01-01 up to the first day of month `m` of year `y`.
pub open spec fn days_before_month(y: int, m: int) -> int
    decreases m,
{
    if m <= 1 {
        0
    } else {
        days_before_month(y, m - 1) + days_in_month(y, m - 1)
    }
}

// ---------------------------------------------------------------------------
// Civil dates
// ---------------------------------------------------------------------------

/// A civil (wall-calendar) date.
#[derive(Debug, Clone, Copy, PartialEq, Eq, Structural)]
pub struct Date {
    pub year: i32,
    pub month: u8,
    pub day: u8,
}

impl Date {
    /// A well-formed date: year 0..=9999, month 1..=12, day valid in its month.
    pub open spec fn wf(self) -> bool {
        &&& 0 <= self.year <= 9999
        &&& 1 <= self.month <= 12
        &&& 1 <= self.day <= days_in_month(self.year as int, self.month as int)
    }

    /// The number of days from 0000-01-01 to this date.
    pub open spec fn day_number(self) -> int {
        days_before_year(self.year as int) + days_before_month(
            self.year as int,
            self.month as int,
        ) + self.day - 1
    }
}

pub open spec fn first_date() -> Date {
    Date { year: 0, month: 1, day: 1 }
}

pub open spec fn last_date() -> Date {
    Date { year: 9999, month: 12, day: 31 }
}

pub open spec fn max_day_number() -> int {
    last_date().day_number()
}

/// Strict chronological (= lexicographic) order on dates.
pub open spec fn date_lt(a: Date, b: Date) -> bool {
    ||| a.year < b.year
    ||| (a.year == b.year && a.month < b.month)
    ||| (a.year == b.year && a.month == b.month && a.day < b.day)
}

// ---------------------------------------------------------------------------
// Lemmas about the day-number line
// ---------------------------------------------------------------------------

pub proof fn lemma_days_before_month_nonneg(y: int, m: int)
    ensures
        m >= 1 ==> days_before_month(y, m) >= 0,
    decreases m,
{
    if m > 1 {
        lemma_days_before_month_nonneg(y, m - 1);
    }
}

/// The months of a year sum to its length.
pub proof fn lemma_days_before_month_total(y: int)
    ensures
        days_before_month(y, 13) == year_len(y),
{
    reveal_with_fuel(days_before_month, 13);
}

pub proof fn lemma_days_before_month_monotone(y: int, m1: int, m2: int)
    requires
        1 <= m1 <= m2 <= 13,
    ensures
        days_before_month(y, m1) <= days_before_month(y, m2),
    decreases m2 - m1,
{
    if m1 < m2 {
        lemma_days_before_month_monotone(y, m1, m2 - 1);
    }
}

pub proof fn lemma_days_before_year_bounds(y: int)
    requires
        y >= 0,
    ensures
        365 * y <= days_before_year(y) <= 366 * y,
    decreases y,
{
    if y > 0 {
        lemma_days_before_year_bounds(y - 1);
    }
}

pub proof fn lemma_days_before_year_monotone(y1: int, y2: int)
    requires
        0 <= y1 <= y2,
    ensures
        days_before_year(y1) <= days_before_year(y2),
        days_before_year(y1) + 365 * (y2 - y1) <= days_before_year(y2),
    decreases y2 - y1,
{
    if y1 < y2 {
        lemma_days_before_year_monotone(y1, y2 - 1);
    }
}

/// Every well-formed date sits between the first and the last date on the
/// day-number line, and the whole line is shorter than 3,700,000 days.
pub proof fn lemma_day_number_range(d: Date)
    requires
        d.wf(),
    ensures
        0 <= d.day_number(),
        d.day_number() <= max_day_number(),
        max_day_number() < 3_700_000,
{
    let y = d.year as int;
    let m = d.month as int;
    lemma_days_before_month_nonneg(y, m);
    lemma_days_before_year_bounds(y);
    // upper bound: d <= last day of its month <= last day of its year
    lemma_days_before_month_monotone(y, m + 1, 13);
    lemma_days_before_month_total(y);
    assert(d.day_number() <= days_before_year(y) + year_len(y) - 1);
    assert(days_before_year(y) + year_len(y) == days_before_year(y + 1));
    lemma_days_before_year_monotone(y + 1, 10000);
    // the same reasoning pins the last date at the very end of year 9999
    lemma_days_before_month_total(9999);
    reveal_with_fuel(days_before_month, 13);
    assert(days_before_month(9999, 12) == 334);
    assert(max_day_number() == days_before_year(9999) + 364);
    assert(days_before_year(10000) == days_before_year(9999) + 365);
    lemma_days_before_year_bounds(10000);
}

/// The day number is strictly monotone in the calendar order.
pub proof fn lemma_day_number_strict(a: Date, b: Date)
    requires
        a.wf(),
        b.wf(),
        date_lt(a, b),
    ensures
        a.day_number() < b.day_number(),
{
    let ya = a.year as int;
    let yb = b.year as int;
    let ma = a.month as int;
    let mb = b.month as int;
    if ya < yb {
        lemma_days_before_month_monotone(ya, ma + 1, 13);
        lemma_days_before_month_total(ya);
        assert(a.day_number() <= days_before_year(ya + 1) - 1);
        lemma_days_before_year_monotone(ya + 1, yb);
        lemma_days_before_month_nonneg(yb, mb);
        assert(b.day_number() >= days_before_year(yb));
    } else if ma < mb {
        lemma_days_before_month_monotone(ya, ma + 1, mb);
        assert(a.day_number() <= days_before_year(ya) + days_before_month(ya, ma + 1) - 1);
    }
}

/// Day numbers identify dates: equal day numbers mean equal dates.
pub proof fn lemma_day_number_injective(a: Date, b: Date)
    requires
        a.wf(),
        b.wf(),
        a.day_number() == b.day_number(),
    ensures
        a == b,
{
    if date_lt(a, b) {
        lemma_day_number_strict(a, b);
    } else if date_lt(b, a) {
        lemma_day_number_strict(b, a);
    }
}

/// The successor of a date on the calendar, undefined at the last date.
pub open spec fn next_date(d: Date) -> Date {
    if d.day < days_in_month(d.year as int, d.month as int) {
        Date { year: d.year, month: d.month, day: (d.day + 1) as u8 }
    } else if d.month < 12 {
        Date { year: d.year, month: (d.month + 1) as u8, day: 1 }
    } else {
        Date { year: (d.year + 1) as i32, month: 1, day: 1 }
    }
}

pub proof fn lemma_next_date(d: Date)
    requires
        d.wf(),
        d != last_date(),
    ensures
        next_date(d).wf(),
        next_date(d).day_number() == d.day_number() + 1,
{
    let y = d.year as int;
    let m = d.month as int;
    if d.day < days_in_month(y, m) {
    } else if d.month < 12 {
        assert(days_before_month(y, m + 1) == days_before_month(y, m) + days_in_month(y, m));
    } else {
        assert(d.month == 12 && d.day == 31);
        assert(d.year < 9999) by {
            if d.year == 9999 {
                assert(d == last_date());
            }
        }
        lemma_days_before_month_total(y);
        reveal_with_fuel(days_before_month, 13);
        assert(days_before_month(y, 12) + 31 == year_len(y));
        assert(days_before_year(y + 1) == days_before_year(y) + year_len(y));
    }
}

/// The predecessor of a date on the calendar, undefined at the first date.
pub open spec fn prev_date(d: Date) -> Date {
    if d.day > 1 {
        Date { year: d.year, month: d.month, day: (d.day - 1) as u8 }
    } else if d.month > 1 {
        Date {
            year: d.year,
            month: (d.month - 1) as u8,
            day: days_in_month(d.year as int, d.month as int - 1) as u8,
        }
    } else {
        Date { year: (d.year - 1) as i32, month: 12, day: 31 }
    }
}

pub proof fn lemma_prev_date(d: Date)
    requires
        d.wf(),
        d != first_date(),
    ensures
        prev_date(d).wf(),
        prev_date(d).day_number() == d.day_number() - 1,
{
    let p = prev_date(d);
    if d.day > 1 {
        assert(p.wf());
    } else if d.month > 1 {
        assert(p.wf());
    } else {
        assert(d.month == 1 && d.day == 1);
        assert(d.year > 0) by {
            if d.year == 0 {
                assert(d == first_date());
            }
        }
        assert(p.wf());
    }
    assert(p != last_date()) by {
        if p == last_date() {
            assert(!d.wf());
        }
    }
    lemma_next_date(p);
    assert(next_date(p) == d);
}

/// Every day number in range is the day number of some well-formed date.
pub proof fn lemma_day_number_exists(n: int)
    requires
        0 <= n <= max_day_number(),
    ensures
        exists|d: Date| d.wf() && #[trigger] d.day_number() == n,
    decreases n,
{
    if n == 0 {
        assert(first_date().wf() && first_date().day_number() == 0);
    } else {
        lemma_day_number_exists(n - 1);
        let d = choose|d: Date| d.wf() && #[trigger] d.day_number() == n - 1;
        assert(d != last_date()) by {
            if d == last_date() {
                assert(d.day_number() == max_day_number());
            }
        }
        lemma_next_date(d);
        assert(next_date(d).wf() && next_date(d).day_number() == n);
    }
}

/// The unique well-formed date with day number `n` (meaningful for
/// `0 <= n <= max_day_number()`).
pub open spec fn day_to_date(n: int) -> Date {
    choose|d: Date| d.wf() && #[trigger] d.day_number() == n
}

pub proof fn lemma_day_to_date(n: int)
    requires
        0 <= n <= max_day_number(),
    ensures
        day_to_date(n).wf(),
        day_to_date(n).day_number() == n,
{
    lemma_day_number_exists(n);
}

/// Shifting a date by a whole number of days; `None` when the result would
/// leave the supported range.
pub open spec fn add_days(d: Date, n: int) -> Option<Date> {
    let t = d.day_number() + n;
    if 0 <= t <= max_day_number() {
        Some(day_to_date(t))
    } else {
        None
    }
}

/// Shifting a date by a whole number of months, clamping the day to the
/// target month's length; `None` when the result would leave the supported
/// range of years.
pub open spec fn add_months(d: Date, n: int) -> Option<Date> {
    let t = d.year * 12 + d.month - 1 + n;
    if 0 <= t < 120000 {
        let y = t / 12;
        let m = t % 12 + 1;
        let day = if d.day <= days_in_month(y, m) {
            d.day as int
        } else {
            days_in_month(y, m)
        };
        Some(Date { year: y as i32, month: m as u8, day: day as u8 })
    } else {
        None
    }
}

/// Weekday of a date, Monday = 0 .. Sunday = 6.
pub open spec fn weekday_of(d: Date) -> int {
    (d.day_number() + 5) % 7
}

/// The date built from the given fields when they are well-formed.
pub open spec fn mk_date(year: i32, month: u8, day: u8) -> Option<Date> {
    let d = Date { year, month, day };
    if d.wf() {
        Some(d)
    } else {
        None
    }
}

// ---------------------------------------------------------------------------
// Executable date operations
// ---------------------------------------------------------------------------

fn is_leap_year_exec(y: i32) -> (r: bool)
    requires
        y >= 0,
    ensures
        r == is_leap_year(y as int),
{
    (y % 4 == 0 && y % 100 != 0) || y % 400 == 0
}

fn days_in_month_exec(y: i32, m: u8) -> (r: u8)
    requires
        y >= 0,
    ensures
        r == days_in_month(y as int, m as int),
{
    if m == 2 {
        if is_leap_year_exec(y) {
            29
        } else {
            28
        }
    } else if m == 4 || m == 6 || m == 9 || m == 11 {
        30
    } else {
        31
    }
}

impl Date {
    /// Builds a date, validating the fields against the calendar.
    pub fn from_ymd(year: i32, month: u8, day: u8) -> (r: Option<Date>)
        ensures
            r == mk_date(year, month, day),
    {
        if 0 <= year && year <= 9999 && 1 <= month && month <= 12 && 1 <= day && day
            <= days_in_month_exec(year, month) {
            Some(Date { year, month, day })
        } else {
            None
        }
    }

    /// The calendar year of this date.
    pub fn year(&self) -> (r: i32)
        ensures
            r == self.year,
    {
        self.year
    }

    /// The number of days from 0000-01-01 to this date.
    fn day_number_exec(&self) -> (n: u32)
        requires
            self.wf(),
        ensures
            n == self.day_number(),
    {
        let mut acc: u32 = 0;
        let mut y: i32 = 0;
        while y < self.year
            invariant
                0 <= y <= self.year,
                self.wf(),
                acc == days_before_year(y as int),
            decreases self.year - y,
        {
            proof {
                lemma_days_before_year_bounds(y as int);
            }
            acc = acc + if is_leap_year_exec(y) {
                366
            } else {
                365
            };
            y = y + 1;
        }
        let mut m: u8 = 1;
        while m < self.month
            invariant
                1 <= m <= self.month,
                self.wf(),
                y == self.year,
                acc == days_before_year(y as int) + days_before_month(y as int, m as int),
            decreases self.month - m,
        {
            proof {
                lemma_days_before_year_bounds(y as int);
                lemma_days_before_month_nonneg(y as int, m as int);
                lemma_days_before_month_monotone(y as int, m as int, 13);
                lemma_days_before_month_total(y as int);
            }
            acc = acc + days_in_month_exec(y, m) as u32;
            m = m + 1;
        }
        proof {
            lemma_day_number_range(*self);
        }
        acc + self.day as u32 - 1
    }

    /// Weekday of this date, Monday = 0 .. Sunday = 6.
    pub fn weekday(&self) -> (r: u8)
        requires
            self.wf(),
        ensures
            r == weekday_of(*self),
    {
        ((self.day_number_exec() % 7 + 5) % 7) as u8
    }

    fn next_date_exec(self) -> (r: Date)
        requires
            self.wf(),
            self != last_date(),
        ensures
            r == next_date(self),
            r.wf(),
            r.day_number() == self.day_number() + 1,
    {
        proof {
            lemma_next_date(self);
        }
        if self.day < days_in_month_exec(self.year, self.month) {
            Date { year: self.year, month: self.month, day: self.day + 1 }
        } else if self.month < 12 {
            Date { year: self.year, month: self.month + 1, day: 1 }
        } else {
            Date { year: self.year + 1, month: 1, day: 1 }
        }
    }

    fn prev_date_exec(self) -> (r: Date)
        requires
            self.wf(),
            self != first_date(),
        ensures
            r == prev_date(self),
            r.wf(),
            r.day_number() == self.day_number() - 1,
    {
        proof {
            lemma_prev_date(self);
        }
        if self.day > 1 {
            Date { year: self.year, month: self.month, day: self.day - 1 }
        } else if self.month > 1 {
            Date { year: self.year, month: self.month - 1, day: days_in_month_exec(self.year, self.month - 1) }
        } else {
            Date { year: self.year - 1, month: 12, day: 31 }
        }
    }

    fn is_last(&self) -> (r: bool)
        ensures
            r == (*self == last_date()),
    {
        self.year == 9999 && self.month == 12 && self.day == 31
    }

    fn is_first(&self) -> (r: bool)
        ensures
            r == (*self == first_date()),
    {
        self.year == 0 && self.month == 1 && self.day == 1
    }

    /// Shifts this date by a whole number of days, failing when the result
    /// would leave the supported range of years.
    pub fn offset_days(self, days: i64) -> (r: Option<Date>)
        requires
            self.wf(),
        ensures
            r == add_days(self, days as int),
            r is Some ==> r->Some_0.wf() && r->Some_0.day_number() == self.day_number() + days,
    {
        proof {
            lemma_day_number_range(self);
        }
        if days >= 0 {
            if days > 3_700_000 {
                return None;
            }
            let mut cur = self;
            let mut i: i64 = 0;
            while i < days
                invariant
                    0 <= i <= days <= 3_700_000,
                    cur.wf(),
                    cur.day_number() == self.day_number() + i,
                decreases days - i,
            {
                proof {
                    lemma_day_number_range(cur);
                }
                if cur.is_last() {
                    return None;
                }
                cur = cur.next_date_exec();
                i = i + 1;
            }
            proof {
                lemma_day_number_range(cur);
                lemma_day_to_date(cur.day_number());
                lemma_day_number_injective(cur, day_to_date(cur.day_number()));
            }
            Some(cur)
        } else {
            if days < -3_700_000 {
                return None;
            }
            let steps = -days;
            let mut cur = self;
            let mut i: i64 = 0;
            while i < steps
                invariant
                    0 <= i <= steps <= 3_700_000,
                    steps == -days,
                    cur.wf(),
                    cur.day_number() == self.day_number() - i,
                decreases steps - i,
            {
                proof {
                    lemma_day_number_range(cur);
                }
                if cur.is_first() {
                    return None;
                }
                cur = cur.prev_date_exec();
                i = i + 1;
            }
            proof {
                lemma_day_number_range(cur);
                lemma_day_to_date(cur.day_number());
                lemma_day_number_injective(cur, day_to_date(cur.day_number()));
            }
            Some(cur)
        }
    }

    /// Shifts this date by a whole number of months, clamping the day to the
    /// length of the target month ("30 Jan" + 1 month is "28 Feb" or "29 Feb").
    pub fn offset_months(self, months: i32) -> (r: Option<Date>)
        requires
            self.wf(),
        ensures
            r == add_months(self, months as int),
            r is Some ==> r->Some_0.wf(),
    {
        let t: i64 = self.year as i64 * 12 + self.month as i64 - 1 + months as i64;
        if t < 0 || t >= 120000 {
            return None;
        }
        let y = (t / 12) as i32;
        let m = (t % 12 + 1) as u8;
        let dim = days_in_month_exec(y, m);
        let day = if self.day <= dim {
            self.day
        } else {
            dim
        };
        Some(Date { year: y, month: m, day })
    }
}

// ---------------------------------------------------------------------------
// Wall-clock times
// ---------------------------------------------------------------------------

/// A wall-clock time of day with microsecond precision.
#[derive(Debug, Clone, Copy, PartialEq, Eq, Structural)]
pub struct Time {
    pub hour: u8,
    pub min: u8,
    pub sec: u8,
    pub micros: u32,
}

impl Time {
    pub open spec fn wf(self) -> bool {
        self.hour < 24 && self.min < 60 && self.sec < 60 && self.micros < 1_000_000
    }

    /// Builds a time of day with zero microseconds, validating the fields.
    pub fn from_hms(h: u32, m: u32, s: u32) -> (r: Option<Time>)
        ensures
            r == mk_time(h, m, s),
            r is Some ==> r->Some_0.wf(),
    {
        if h < 24 && m < 60 && s < 60 {
            Some(Time { hour: h as u8, min: m as u8, sec: s as u8, micros: 0 })
        } else {
            None
        }
    }

    /// Replaces the microsecond component, validating it.
    pub fn with_micros(self, ms: u32) -> (r: Option<Time>)
        ensures
            r == time_with_micros(self, ms),
            self.wf() && r is Some ==> r->Some_0.wf(),
    {
        if ms < 1_000_000 {
            Some(Time { micros: ms, ..self })
        } else {
            None
        }
    }
}

pub open spec fn mk_time(h: u32, m: u32, s: u32) -> Option<Time> {
    if h < 24 && m < 60 && s < 60 {
        Some(Time { hour: h as u8, min: m as u8, sec: s as u8, micros: 0 })
    } else {
        None
    }
}

pub open spec fn time_with_micros(t: Time, ms: u32) -> Option<Time> {
    if ms < 1_000_000 {
        Some(Time { micros: ms, ..t })
    } else {
        None
    }
}

pub open spec fn midnight() -> Time {
    Time { hour: 0, min: 0, sec: 0, micros: 0 }
}

/// Seconds since midnight, ignoring microseconds.
pub open spec fn tod_secs(t: Time) -> int {
    3600 * t.hour + 60 * t.min + t.sec
}

/// Strict chronological (= lexicographic) order on times.
pub open spec fn time_lt(a: Time, b: Time) -> bool {
    ||| a.hour < b.hour
    ||| (a.hour == b.hour && a.min < b.min)
    ||| (a.hour == b.hour && a.min == b.min && a.sec < b.sec)
    ||| (a.hour == b.hour && a.min == b.min && a.sec == b.sec && a.micros < b.micros)
}

// ---------------------------------------------------------------------------
// Fixed-offset date-times
// ---------------------------------------------------------------------------

/// A UTC offset in whole seconds, strictly less than one day in magnitude.
pub open spec fn valid_offset(secs: i32) -> bool {
    -86400 < secs < 86400
}

/// A civil date-time carrying the UTC offset of its time zone.
#[derive(Debug, Clone, Copy, PartialEq, Eq, Structural)]
pub struct DateTime {
    pub offset: i32,
    pub date: Date,
    pub time: Time,
}

impl DateTime {
    pub open spec fn wf(self) -> bool {
        valid_offset(self.offset) && self.date.wf() && self.time.wf()
    }

    /// Seconds from the start of the supported range (0000-01-01 00:00:00) to
    /// this date-time's wall-clock reading, ignoring the offset.
    pub open spec fn civil_secs(self) -> int {
        self.date.day_number() * 86400 + tod_secs(self.time)
    }

    /// Combines a UTC offset, a date and a time.
    pub fn new(tz: i32, date: Date, time: Time) -> (r: DateTime)
        requires
            valid_offset(tz),
            date.wf(),
            time.wf(),
        ensures
            r == (DateTime { offset: tz, date, time }),
            r.wf(),
    {
        DateTime { offset: tz, date, time }
    }

    /// Splits this date-time back into offset, date and time.
    pub fn split(self) -> (r: (i32, Date, Time))
        ensures
            r == (self.offset, self.date, self.time),
    {
        (self.offset, self.date, self.time)
    }

    /// Shifts the wall-clock reading by a whole number of seconds, keeping
    /// the offset and the microseconds; fails when the result would leave the
    /// supported range.
    pub fn offset_seconds(self, secs: i64) -> (r: Option<DateTime>)
        requires
            self.wf(),
        ensures
            r == add_secs(self, secs as int),
            r is Some ==> r->Some_0.wf(),
    {
        proof {
            lemma_day_number_range(self.date);
        }
        if secs > 400_000_000_000i64 || secs < -400_000_000_000i64 {
            return None;
        }
        let dn = self.date.day_number_exec() as i64;
        let tod: i64 = 3600 * self.time.hour as i64 + 60 * self.time.min as i64
            + self.time.sec as i64;
        let target = dn * 86400 + tod + secs;
        if target < 0 {
            return None;
        }
        let day = target / 86400;
        let rem = target % 86400;
        let start = Date { year: 0, month: 1, day: 1 };
        assert(start.day_number() == 0);
        let d2 = match start.offset_days(day) {
            Some(d2) => d2,
            None => {
                proof {
                    assert(target == 86400 * day + rem && 0 <= rem < 86400);
                    assert(day > max_day_number());
                    assert(target > max_civil_secs());
                }
                return None;
            },
        };
        let h = rem / 3600;
        let rem2 = rem % 3600;
        let mn = rem2 / 60;
        let s = rem2 % 60;
        let time2 = Time { hour: h as u8, min: mn as u8, sec: s as u8, micros: self.time.micros };
        proof {
            assert(target == 86400 * day + rem && 0 <= rem < 86400);
            assert(rem == 3600 * h + rem2 && 0 <= rem2 < 3600);
            assert(rem2 == 60 * mn + s && 0 <= s < 60);
            assert(target <= max_civil_secs());
            assert(day == target as int / 86400 && rem == target as int % 86400) by {
                vstd::arithmetic::div_mod::lemma_fundamental_div_mod_converse(
                    target as int,
                    86400,
                    day as int,
                    rem as int,
                );
            }
        }
        Some(DateTime { offset: self.offset, date: d2, time: time2 })
    }

    /// Re-reads this date-time's wall-clock fields as being at the given UTC
    /// offset and expresses the resulting instant back at this date-time's
    /// own offset.
    pub fn with_offset(self, secs: i64) -> (r: Option<DateTime>)
        requires
            self.wf(),
        ensures
            r == with_offset_spec(self, secs as int),
            r is Some ==> r->Some_0.wf(),
    {
        if secs > 500_000_000_000i64 || secs < -500_000_000_000i64 {
            proof {
                lemma_day_number_range(self.date);
            }
            return None;
        }
        self.offset_seconds(self.offset as i64 - secs)
    }
}

pub open spec fn max_civil_secs() -> int {
    (max_day_number() + 1) * 86400 - 1
}

/// Shifting a date-time by whole seconds on the civil-seconds line; `None`
/// when the result would leave the supported range.
pub open spec fn add_secs(dt: DateTime, s: int) -> Option<DateTime> {
    let t = dt.civil_secs() + s;
    if 0 <= t <= max_civil_secs() {
        let rem = t % 86400;
        Some(
            DateTime {
                offset: dt.offset,
                date: day_to_date(t / 86400),
                time: Time {
                    hour: (rem / 3600) as u8,
                    min: ((rem % 3600) / 60) as u8,
                    sec: ((rem % 3600) % 60) as u8,
                    micros: dt.time.micros,
                },
            },
        )
    } else {
        None
    }
}

/// The wall-clock fields of `dt`, read as being at offset `secs` and shown
/// again at `dt`'s own offset: a shift by `dt.offset - secs` seconds.
pub open spec fn with_offset_spec(dt: DateTime, secs: int) -> Option<DateTime> {
    add_secs(dt, dt.offset - secs)
}

} // verus!
