use vstd::prelude::*;

verus! {

/// Byte range of a token in the input text, reported with parse errors.
#[derive(Debug, Clone, Copy, PartialEq, Eq, Structural)]
pub struct Span {
    pub start: usize,
    pub end: usize,
}

/// Error type for parsing and processing date/time inputs.
#[derive(Debug, Clone, Copy, PartialEq, Eq)]
pub enum DateError {
    /// A token was present but not the expected one; carries a description of
    /// what was expected and the span of the offending token.
    ExpectedToken(&'static str, Span),
    /// Input ended where a token was still expected.
    EndOfText(&'static str),
    MissingDate,
    MissingTime,

    UnexpectedDate,
    UnexpectedAbsoluteDate,
    UnexpectedTime,
}

pub type DateResult<T> = Result<T, DateError>;

/// Mathematical model of a `DateError`: the message as a character sequence
/// and the span as plain integers.
pub enum ErrSpec {
    ExpectedToken(Seq<char>, int, int),
    EndOfText(Seq<char>),
    MissingDate,
    MissingTime,
    UnexpectedDate,
    UnexpectedAbsoluteDate,
    UnexpectedTime,
}

pub open spec fn err_model(e: DateError) -> ErrSpec {
    match e {
        DateError::ExpectedToken(m, sp) => ErrSpec::ExpectedToken(m@, sp.start as int, sp.end as int),
        DateError::EndOfText(m) => ErrSpec::EndOfText(m@),
        DateError::MissingDate => ErrSpec::MissingDate,
        DateError::MissingTime => ErrSpec::MissingTime,
        DateError::UnexpectedDate => ErrSpec::UnexpectedDate,
        DateError::UnexpectedAbsoluteDate => ErrSpec::UnexpectedAbsoluteDate,
        DateError::UnexpectedTime => ErrSpec::UnexpectedTime,
    }
}

/// An executable result agrees with its model: payloads are equal on `Ok`,
/// and the error models match on `Err`.
pub open spec fn res_model<T>(r: Result<T, DateError>, m: Result<T, ErrSpec>) -> bool {
    match (r, m) {
        (Ok(a), Ok(b)) => a == b,
        (Err(e), Err(f)) => err_model(e) == f,
        _ => false,
    }
}

// ---------------------------------------------------------------------------
// Human-readable rendering
// ---------------------------------------------------------------------------

/// The decimal digit character for a value 0..=9.
pub open spec fn digit_char(k: int) -> char {
    if k == 0 {
        '0'
    } else if k == 1 {
        '1'
    } else if k == 2 {
        '2'
    } else if k == 3 {
        '3'
    } else if k == 4 {
        '4'
    } else if k == 5 {
        '5'
    } else if k == 6 {
        '6'
    } else if k == 7 {
        '7'
    } else if k == 8 {
        '8'
    } else {
        '9'
    }
}

/// The decimal rendering of a number, most significant digit first.
pub open spec fn dec_digits(n: nat) -> Seq<char>
    decreases n,
{
    if n < 10 {
        seq![digit_char(n as int)]
    } else {
        dec_digits(n / 10) + seq![digit_char((n % 10) as int)]
    }
}

fn digit_str(d: usize) -> (r: &'static str)
    requires
        d < 10,
    ensures
        r@ == seq![digit_char(d as int)],
{
    proof {
        reveal_strlit("0");
        reveal_strlit("1");
        reveal_strlit("2");
        reveal_strlit("3");
        reveal_strlit("4");
        reveal_strlit("5");
        reveal_strlit("6");
        reveal_strlit("7");
        reveal_strlit("8");
        reveal_strlit("9");
    }
    let r = if d == 0 {
        "0"
    } else if d == 1 {
        "1"
    } else if d == 2 {
        "2"
    } else if d == 3 {
        "3"
    } else if d == 4 {
        "4"
    } else if d == 5 {
        "5"
    } else if d == 6 {
        "6"
    } else if d == 7 {
        "7"
    } else if d == 8 {
        "8"
    } else {
        "9"
    };
    proof {
        assert(r@ =~= seq![digit_char(d as int)]);
    }
    r
}

fn usize_to_string(n: usize) -> (r: String)
    ensures
        r@ == dec_digits(n as nat),
    decreases n,
{
    if n < 10 {
        String::from_str(digit_str(n))
    } else {
        let mut s = usize_to_string(n / 10);
        s.append(digit_str(n % 10));
        s
    }
}

/// The human-readable description of an error.
pub open spec fn describe_spec(e: DateError) -> Seq<char> {
    match e {
        DateError::ExpectedToken(m, sp) => "expected "@ + m@ + " as position "@ + dec_digits(
            sp.start as nat,
        ) + ".."@ + dec_digits(sp.end as nat),
        DateError::EndOfText(m) => "expected "@ + m@ + " at the end of the input"@,
        DateError::MissingDate => "date could not be parsed from input"@,
        DateError::MissingTime => "time could not be parsed from input"@,
        DateError::UnexpectedDate => "expected relative date, found a named date"@,
        DateError::UnexpectedAbsoluteDate => "expected relative date, found an exact date"@,
        DateError::UnexpectedTime => "expected duration, found time"@,
    }
}

impl DateError {
    /// Renders this error for humans, e.g. "expected number as position 3..7".
    pub fn describe(&self) -> (r: String)
        ensures
            r@ == describe_spec(*self),
    {
        match self {
            DateError::ExpectedToken(m, sp) => {
                let mut s = String::from_str("expected ");
                s.append(m);
                s.append(" as position ");
                let a = usize_to_string(sp.start);
                s.append(a.as_str());
                s.append("..");
                let b = usize_to_string(sp.end);
                s.append(b.as_str());
                proof {
                    assert(s@ =~= describe_spec(*self));
                }
                s
            },
            DateError::EndOfText(m) => {
                let mut s = String::from_str("expected ");
                s.append(m);
                s.append(" at the end of the input");
                proof {
                    assert(s@ =~= describe_spec(*self));
                }
                s
            },
            DateError::MissingDate => String::from_str("date could not be parsed from input"),
            DateError::MissingTime => String::from_str("time could not be parsed from input"),
            DateError::UnexpectedDate => String::from_str(
                "expected relative date, found a named date",
            ),
            DateError::UnexpectedAbsoluteDate => String::from_str(
                "expected relative date, found an exact date",
            ),
            DateError::UnexpectedTime => String::from_str("expected duration, found time"),
        }
    }
}

} // verus!
