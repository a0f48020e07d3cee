//! English date/time phrase parsing: turns informal phrases such as
//! "next friday 8pm", "3 weeks ago" or "2017-06-30T08:20:30Z" into a concrete
//! date-time relative to a caller-supplied reference, or into a relative
//! [`Interval`] of seconds, days or months.
//!
//! Supported forms include absolute dates ("2018-04-01", "1 April 2018",
//! "April 1, 2018", and the slash forms "01/04/18" or, with [`Dialect::Us`],
//! "04/01/18"), named dates relative to the reference ("friday", "April 1",
//! "9/11", modifiable with "next"/"last"/"this"), relative intervals
//! ("2 days", "3 hours ago", "-3h"), and an optional trailing time, formal
//! ("18:03:40", with optional fractional seconds, "Z" or a numeric UTC
//! offset) or informal ("6.03pm").
//!
//! The pipeline — tokenizer, recursive-descent grammar, vocabulary tables,
//! and the calendar resolver — lives in this crate and is verified: each
//! step's contract pins its result down exactly, over the character sequence
//! of the input and a day-number model of the proleptic Gregorian calendar,
//! and the laws the library promises (dialect handling, month clamping,
//! offset precedence, round trips) are proved in [`laws`].
//!
//! The two entry points are [`parse_date_string`] and [`parse_duration`].

pub mod datetime;
pub mod errors;
pub mod laws;
pub mod parser;
pub mod types;

use vstd::prelude::*;

pub use errors::{DateError, DateResult, Span};
pub use types::Interval;

use datetime::DateTime;
use errors::{res_model, ErrSpec};
use parser::{parse_spec, DateParser};
use types::{ds_resolve, ts_resolve, DateSpec, DateTimeSpec};

verus! {

/// Form of english dates to parse.
#[derive(Clone, Copy, Debug, PartialEq, Eq, Structural)]
pub enum Dialect {
    Uk,
    Us,
}

/// Resolution of a parsed specification against the reference: a date part
/// is resolved with any time part on top; a bare time part is combined with
/// the reference's own calendar date; neither part at all is an error.
pub open spec fn into_date_string_spec(
    d: DateTimeSpec,
    now: DateTime,
    dialect: Dialect,
) -> Result<DateTime, ErrSpec> {
    if d.date is Some {
        match ds_resolve(d.date->0, now, d.time, dialect) {
            Some(dt) => Ok(dt),
            None => Err(ErrSpec::MissingDate),
        }
    } else if d.time is Some {
        match ts_resolve(d.time->0, now.offset, now.date) {
            Some(dt) => Ok(dt),
            None => Err(ErrSpec::MissingTime),
        }
    } else {
        Err(ErrSpec::MissingTime)
    }
}

/// What `parse_date_string` returns on the given text, reference and
/// dialect: the text parsed by the grammar, then resolved.
pub open spec fn parse_date_string_spec(
    s: Seq<char>,
    now: DateTime,
    dialect: Dialect,
) -> Result<DateTime, ErrSpec> {
    match parse_spec(s, dialect) {
        Err(e) => Err(e),
        Ok(d) => into_date_string_spec(d, now, dialect),
    }
}

/// What `parse_duration` returns on the given text: the text parsed with
/// the UK dialect, then required to be exactly a bare relative interval.
pub open spec fn parse_duration_spec(s: Seq<char>) -> Result<Interval, ErrSpec> {
    match parse_spec(s, Dialect::Uk) {
        Err(e) => Err(e),
        Ok(d) => {
            if d.time is Some {
                Err(ErrSpec::UnexpectedTime)
            } else {
                match d.date {
                    Some(DateSpec::Relative(skip)) => Ok(skip),
                    Some(DateSpec::Absolute(_)) => Err(ErrSpec::UnexpectedAbsoluteDate),
                    Some(DateSpec::FromName(_, _)) => Err(ErrSpec::UnexpectedDate),
                    None => Err(ErrSpec::MissingDate),
                }
            }
        },
    }
}

fn into_date_string(d: DateTimeSpec, now: DateTime, dialect: Dialect) -> (r: DateResult<DateTime>)
    requires
        now.wf(),
    ensures
        res_model(r, into_date_string_spec(d, now, dialect)),
{
    // we may have an explicit hour:minute:sec
    if let Some(dspec) = d.date {
        match dspec.into_date_time(now, d.time, dialect) {
            Some(dt) => Ok(dt),
            None => Err(DateError::MissingDate),
        }
    } else if let Some(tspec) = d.time {
        // no date, use today's date
        let (tz, date, _) = now.split();
        match tspec.into_date_time(tz, date) {
            Some(dt) => Ok(dt),
            None => Err(DateError::MissingTime),
        }
    } else {
        Err(DateError::MissingTime)
    }
}

/// Parse a date-time from the text, potentially relative to `now`. Accepts
/// a [`Dialect`] to support some slightly different text parsing behaviour.
pub fn parse_date_string(s: &str, now: DateTime, dialect: Dialect) -> (r: DateResult<DateTime>)
    requires
        now.wf(),
    ensures
        res_model(r, parse_date_string_spec(s@, now, dialect)),
{
    let mut p = DateParser::new(s);
    let d = match p.parse(dialect) {
        Ok(d) => d,
        Err(e) => {
            return Err(e);
        },
    };
    into_date_string(d, now, dialect)
}

/// Parse an [`Interval`] from the text: the relative part of a phrase like
/// 'two days ago' or '12 hours', rejecting anything absolute or named and
/// any time-of-day component.
pub fn parse_duration(s: &str) -> (r: DateResult<Interval>)
    ensures
        res_model(r, parse_duration_spec(s@)),
{
    let mut p = DateParser::new(s);
    let d = match p.parse(Dialect::Uk) {
        Ok(d) => d,
        Err(e) => {
            return Err(e);
        },
    };

    if d.time.is_some() {
        return Err(DateError::UnexpectedTime);
    }

    match d.date {
        Some(DateSpec::Relative(skip)) => Ok(skip),
        Some(DateSpec::Absolute(_)) => Err(DateError::UnexpectedAbsoluteDate),
        Some(DateSpec::FromName(..)) => Err(DateError::UnexpectedDate),
        None => Err(DateError::MissingDate),
    }
}

} // verus!
