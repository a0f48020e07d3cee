//! Laws of the library, stated and proved against the specification
//! functions that the public contracts use.

use vstd::prelude::*;

use crate::datetime::{
    add_months, add_secs, date_lt, day_to_date, is_leap_year, lemma_day_number_range,
    lemma_day_number_strict, lemma_day_to_date, max_day_number, midnight, valid_offset,
    weekday_of, Date, DateTime,
};
use crate::errors::{dec_digits, digit_char, ErrSpec};
use crate::parser::{
    digit_val, is_alpha, is_digit, is_ws, lemma_byte_off_ascii_prefix, lemma_ident_len_is,
    lemma_run_len_is, lex_from, lex_spec, num_val, run_len, sp_formal_tail, sp_parse, TkM, TokM,
};
use crate::types::{
    byname_resolve, iv_mul, lc, month_name_spec, time_unit_spec, ts_resolve, ByName, DateSpec,
    DateTimeSpec, Direction, Interval, TimeSpec,
};
use crate::Dialect;

verus! {

/// The bare unit letter "m" always resolves to minutes, never months, and
/// any unit word beginning "mo" resolves to months.
pub proof fn lemma_unit_letter_m()
    ensures
        time_unit_spec(seq!['m']) == Some(Interval::Seconds(60)),
        forall|s: Seq<char>|
            2 <= s.len() <= 16 && lc(s[0]) == 'm' as u32 && lc(s[1]) == 'o' as u32
                ==> #[trigger] time_unit_spec(s) == Some(Interval::Months(1)),
{
}

/// Month arithmetic clamps the day: one month after the 30th of January is
/// the 28th of February, or the 29th in a leap year.
pub proof fn lemma_month_clamp(y: i32)
    requires
        0 <= y <= 9999,
    ensures
        add_months(Date { year: y, month: 1, day: 30 }, 1) == Some(
            Date {
                year: y,
                month: 2,
                day: if is_leap_year(y as int) {
                    29
                } else {
                    28
                },
            },
        ),
{
    let t = y * 12 + 1;
    assert(t / 12 == y as int && t % 12 == 1) by {
        vstd::arithmetic::div_mod::lemma_fundamental_div_mod_converse(t as int, 12, y as int, 1);
    }
}

/// Phrasing a duration as "N unit ago" or as "-N unit" yields the same
/// interval: the same unit, and the same negated magnitude.
pub proof fn lemma_duration_negation(
    toks_neg: Seq<TokM>,
    toks_ago: Seq<TokM>,
    n: u32,
    name: Seq<char>,
)
    requires
        n < 10000,
        time_unit_spec(name) is Some,
        month_name_spec(name) is None,
        toks_neg.len() == 3,
        toks_neg[0].kind is Dash,
        toks_neg[1].kind == TkM::Number(n),
        toks_neg[2].kind == TkM::Ident(name),
        toks_ago.len() == 3,
        toks_ago[0].kind == TkM::Number(n),
        toks_ago[1].kind == TkM::Ident(name),
        toks_ago[2].kind == TkM::Ident("ago"@),
    ensures
        sp_parse(toks_neg, 0, None, Dialect::Uk) == sp_parse(toks_ago, 0, None, Dialect::Uk),
        sp_parse(toks_neg, 0, None, Dialect::Uk) == Ok::<_, ErrSpec>(
            DateTimeSpec {
                date: Some(
                    DateSpec::Relative(iv_mul(time_unit_spec(name)->0, -(n as int))),
                ),
                time: None,
            },
        ),
{
    reveal_strlit("ago");
}

/// A timezone offset written `+HH:MM` and one written packed `+HHMM` give
/// the same parsed time, with the same offset in seconds.
pub proof fn lemma_offset_forms(
    toks_colon: Seq<TokM>,
    toks_packed: Seq<TokM>,
    h: u32,
    mm: u32,
    hour: u32,
    min: u32,
    sec: u32,
    micros: u32,
)
    requires
        h < 100,
        mm < 100,
        toks_colon.len() == 4,
        toks_colon[0].kind is Plus,
        toks_colon[1].kind == TkM::Number(h),
        toks_colon[2].kind is Colon,
        toks_colon[3].kind == TkM::Number(mm),
        toks_packed.len() == 2,
        toks_packed[0].kind is Plus,
        toks_packed[1].kind == TkM::Number((h * 100 + mm) as u32),
    ensures
        sp_formal_tail(toks_colon, 0, hour, min, sec, micros).0 == sp_formal_tail(
            toks_packed,
            0,
            hour,
            min,
            sec,
            micros,
        ).0,
        sp_formal_tail(toks_colon, 0, hour, min, sec, micros).0 == Ok::<_, ErrSpec>(
            TimeSpec {
                hour,
                min,
                sec,
                microsec: micros,
                offset: Some((60 * (mm + 60 * h)) as i64),
            },
        ),
{
    let packed = (h * 100 + mm) as u32;
    assert(packed as int / 100 == h as int && packed as int % 100 == mm as int) by {
        vstd::arithmetic::div_mod::lemma_fundamental_div_mod_converse(
            packed as int,
            100,
            h as int,
            mm as int,
        );
    }
}

/// Whenever a date-time shift succeeds, the civil-seconds reading moves by
/// exactly the shift.
pub proof fn lemma_add_secs_civil(dt: DateTime, s: int)
    requires
        add_secs(dt, s) is Some,
    ensures
        add_secs(dt, s)->0.civil_secs() == dt.civil_secs() + s,
        add_secs(dt, s)->0.offset == dt.offset,
{
    let t = dt.civil_secs() + s;
    let rem = t % 86400;
    vstd::arithmetic::div_mod::lemma_fundamental_div_mod(t, 86400);
    vstd::arithmetic::div_mod::lemma_fundamental_div_mod(rem, 3600);
    vstd::arithmetic::div_mod::lemma_fundamental_div_mod(rem % 3600, 60);
    lemma_day_to_date(t / 86400);
    assert(0 <= rem < 86400);
    assert(rem / 3600 < 24);
    assert(rem % 3600 < 3600);
    assert((rem % 3600) / 60 < 60);
}

/// Against a Wednesday reference, 'next monday' in the US dialect resolves
/// to the very next Monday: five days ahead, at midnight. (The only
/// Wednesdays left out are those within five days of the calendar model's
/// last day, where resolution reports failure.)
#[verifier::rlimit(60)]
pub proof fn lemma_next_weekday_us(base: DateTime)
    requires
        base.wf(),
        weekday_of(base.date) == 2,
        base.date.day_number() + 5 <= max_day_number(),
    ensures
        byname_resolve(ByName::WeekDay(0), base, None, Dialect::Us, Direction::Next) == Some(
            DateTime {
                offset: base.offset,
                date: day_to_date(base.date.day_number() + 5),
                time: midnight(),
            },
        ),
        weekday_of(day_to_date(base.date.day_number() + 5)) == 0,
{
    let bd = base.date;
    let dn = bd.day_number();
    lemma_day_number_range(bd);
    assert(dn % 7 == 4);
    assert(dn >= 2);
    lemma_day_to_date(dn - 2);
    let d1 = day_to_date(dn - 2);
    assert(date_lt(d1, bd)) by {
        if d1 == bd {
            assert(d1.day_number() == dn);
        } else if date_lt(bd, d1) {
            lemma_day_number_strict(bd, d1);
        }
    }
    lemma_day_to_date(dn + 5);
    let d2 = day_to_date(dn + 5);
    lemma_day_to_date(d2.day_number());
    assert((dn + 5 + 5) % 7 == 0);
}

/// Against a Wednesday reference, 'next monday' in the UK dialect resolves
/// to the Monday one week after the coming Monday: twelve days ahead, at
/// midnight. (The only Wednesdays left out are those within twelve days of
/// the calendar model's last day, where resolution reports failure.)
#[verifier::rlimit(60)]
pub proof fn lemma_next_weekday_uk(base: DateTime)
    requires
        base.wf(),
        weekday_of(base.date) == 2,
        base.date.day_number() + 12 <= max_day_number(),
    ensures
        byname_resolve(ByName::WeekDay(0), base, None, Dialect::Uk, Direction::Next) == Some(
            DateTime {
                offset: base.offset,
                date: day_to_date(base.date.day_number() + 12),
                time: midnight(),
            },
        ),
        weekday_of(day_to_date(base.date.day_number() + 12)) == 0,
{
    let bd = base.date;
    let dn = bd.day_number();
    lemma_day_number_range(bd);
    assert(dn % 7 == 4);
    assert(dn >= 2);
    lemma_day_to_date(dn - 2);
    let d1 = day_to_date(dn - 2);
    assert(date_lt(d1, bd)) by {
        if d1 == bd {
            assert(d1.day_number() == dn);
        } else if date_lt(bd, d1) {
            lemma_day_number_strict(bd, d1);
        }
    }
    lemma_day_to_date(dn + 5);
    lemma_day_to_date(dn + 12);
    let d2 = day_to_date(dn + 5);
    let d3 = day_to_date(dn + 12);
    lemma_day_to_date(d2.day_number());
    lemma_day_to_date(d3.day_number());
    assert((dn + 12 + 5) % 7 == 0);
}

/// An explicit UTC offset on a parsed time wins over the reference's
/// ambient offset: against the same date, resolving with offset `o`
/// differs from resolving without one by exactly `ambient - o` seconds.
pub proof fn lemma_offset_precedence(ts: TimeSpec, tz: i32, date: Date, o: i64)
    requires
        date.wf(),
        valid_offset(tz),
        ts.offset == Some(o),
    ensures
        ({
            let with_o = ts_resolve(ts, tz, date);
            let without = ts_resolve(TimeSpec { offset: None, ..ts }, tz, date);
            &&& (with_o is Some && without is Some) ==> with_o->0.civil_secs()
                == without->0.civil_secs() + tz - o
            &&& (with_o is Some && without is Some) ==> with_o->0.offset == without->0.offset
        }),
{
    let with_o = ts_resolve(ts, tz, date);
    let without = ts_resolve(TimeSpec { offset: None, ..ts }, tz, date);
    if with_o is Some && without is Some {
        let base = without->0;
        lemma_add_secs_civil(base, tz - o);
    }
}

/// The decimal rendering of a number below 10000 has one to four
/// characters, all of them digits.
proof fn lemma_dec_digits_shape(n: nat)
    requires
        n < 10000,
    ensures
        1 <= dec_digits(n).len() <= 4,
        n < 10 ==> dec_digits(n).len() == 1,
        n < 100 ==> dec_digits(n).len() <= 2,
        n < 1000 ==> dec_digits(n).len() <= 3,
        forall|i: int| 0 <= i < dec_digits(n).len() ==> is_digit(#[trigger] dec_digits(n)[i]),
    decreases n,
{
    if n < 10 {
        lemma_digit_char(n as int);
    } else {
        lemma_dec_digits_shape(n / 10);
        lemma_digit_char((n % 10) as int);
        assert forall|i: int| 0 <= i < dec_digits(n).len() implies is_digit(
            #[trigger] dec_digits(n)[i],
        ) by {
            if i < dec_digits(n / 10).len() {
                assert(dec_digits(n)[i] == dec_digits(n / 10)[i]);
            } else {
                assert(dec_digits(n)[i] == digit_char((n % 10) as int));
            }
        }
    }
}

/// Digits standing in a larger text recombine to the rendered number.
proof fn lemma_num_val_dec(s: Seq<char>, i: int, n: nat)
    requires
        n < 10000,
        0 <= i,
        i + dec_digits(n).len() <= s.len(),
        s.subrange(i, i + dec_digits(n).len()) =~= dec_digits(n),
    ensures
        num_val(s, i, dec_digits(n).len() as int) == n,
    decreases n,
{
    let k = dec_digits(n).len() as int;
    reveal_with_fuel(num_val, 3);
    if n < 10 {
        assert(s[i] == s.subrange(i, i + 1)[0]);
        lemma_digit_char(n as int);
    } else {
        let pre = dec_digits(n / 10);
        let kp = pre.len() as int;
        assert(s.subrange(i, i + kp) =~= pre) by {
            assert forall|j: int| 0 <= j < kp implies s.subrange(i, i + kp)[j] == pre[j] by {
                assert(s.subrange(i, i + k)[j] == dec_digits(n)[j]);
            }
        }
        lemma_num_val_dec(s, i, n / 10);
        assert(s[i + k - 1] == s.subrange(i, i + k)[k - 1]);
        assert(s[i + k - 1] == digit_char((n % 10) as int));
        lemma_digit_char((n % 10) as int);
        vstd::arithmetic::div_mod::lemma_fundamental_div_mod(n as int, 10);
    }
}

/// Lexing "-N unit" and "N unit ago" yields the expected token sequences.
proof fn lemma_lex_duration_phrases(n: nat, name: Seq<char>)
    requires
        n < 10000,
        1 <= name.len(),
        forall|i: int| 0 <= i < name.len() ==> is_alpha(#[trigger] name[i]),
    ensures
        ({
            let num = dec_digits(n);
            let k = num.len() as int;
            let nl = name.len() as int;
            &&& lex_spec(seq!['-'] + num + seq![' '] + name) =~= seq![
                TokM { kind: TkM::Dash, start: 0, end: 1 },
                TokM { kind: TkM::Number(n as u32), start: 1, end: 1 + k },
                TokM { kind: TkM::Ident(name), start: 2 + k, end: 2 + k + nl },
            ]
            &&& lex_spec(num + seq![' '] + name + seq![' '] + "ago"@) =~= seq![
                TokM { kind: TkM::Number(n as u32), start: 0, end: k },
                TokM { kind: TkM::Ident(name), start: k + 1, end: k + 1 + nl },
                TokM { kind: TkM::Ident("ago"@), start: k + 2 + nl, end: k + 5 + nl },
            ]
        }),
{
    reveal_strlit("ago");
    lemma_dec_digits_shape(n);
    let num = dec_digits(n);
    let k = num.len() as int;
    let nl = name.len() as int;

    let s1 = seq!['-'] + num + seq![' '] + name;
    assert(s1.len() == 2 + k + nl);
    assert(s1[0] == '-');
    assert(forall|j: int| 0 <= j < k ==> s1[1 + j] == #[trigger] num[j]);
    assert(s1[1 + k] == ' ');
    assert(forall|j: int| 0 <= j < nl ==> s1[2 + k + j] == #[trigger] name[j]);
    assert(!is_digit('-') && !is_alpha('-') && !is_ws('-'));
    assert(is_ws(' ') && !is_digit(' ') && !is_alpha(' '));
    // the whole phrase is ASCII, so byte offsets equal character positions
    assert(forall|p: int| 0 <= p < s1.len() ==> ((#[trigger] s1[p]) as u32) < 0x80);
    lemma_byte_off_ascii_prefix(s1, 0);
    lemma_byte_off_ascii_prefix(s1, 1);
    lemma_byte_off_ascii_prefix(s1, 1 + k);
    lemma_byte_off_ascii_prefix(s1, 2 + k);
    lemma_byte_off_ascii_prefix(s1, 2 + k + nl);
    // the number token
    lemma_run_len_is(s1, 1, 4, k);
    assert(s1.subrange(1, 1 + k) =~= num);
    lemma_num_val_dec(s1, 1, n);
    // the unit word
    lemma_ident_len_is(s1, 2 + k, nl);
    assert(s1.subrange(2 + k, 2 + k + nl) =~= name);
    // walk the lexer
    assert(lex_from(s1, s1.len() as int) =~= Seq::<TokM>::empty());
    assert(lex_from(s1, 2 + k) =~= seq![
        TokM { kind: TkM::Ident(name), start: 2 + k, end: 2 + k + nl },
    ]);
    assert(lex_from(s1, 1 + k) =~= lex_from(s1, 2 + k));
    assert(lex_from(s1, 1) =~= seq![TokM { kind: TkM::Number(n as u32), start: 1, end: 1 + k }]
        + lex_from(s1, 1 + k));
    assert(lex_from(s1, 0) =~= seq![TokM { kind: TkM::Dash, start: 0, end: 1 }] + lex_from(
        s1,
        1,
    ));

    let s2 = num + seq![' '] + name + seq![' '] + "ago"@;
    assert("ago"@.len() == 3);
    assert(s2.len() == k + 5 + nl);
    assert(forall|j: int| 0 <= j < k ==> s2[j] == #[trigger] num[j]);
    assert(s2[k] == ' ');
    assert(forall|j: int| 0 <= j < nl ==> s2[k + 1 + j] == #[trigger] name[j]);
    assert(s2[k + 1 + nl] == ' ');
    assert(s2[k + 2 + nl] == 'a' && s2[k + 3 + nl] == 'g' && s2[k + 4 + nl] == 'o');
    assert(is_alpha('a') && is_alpha('g') && is_alpha('o'));
    assert(forall|p: int| 0 <= p < s2.len() ==> ((#[trigger] s2[p]) as u32) < 0x80);
    lemma_byte_off_ascii_prefix(s2, 0);
    lemma_byte_off_ascii_prefix(s2, k);
    lemma_byte_off_ascii_prefix(s2, k + 1);
    lemma_byte_off_ascii_prefix(s2, k + 1 + nl);
    lemma_byte_off_ascii_prefix(s2, k + 2 + nl);
    lemma_byte_off_ascii_prefix(s2, k + 5 + nl);
    lemma_run_len_is(s2, 0, 4, k);
    assert(s2.subrange(0, k) =~= num);
    lemma_num_val_dec(s2, 0, n);
    lemma_ident_len_is(s2, k + 1, nl);
    assert(s2.subrange(k + 1, k + 1 + nl) =~= name);
    lemma_ident_len_is(s2, k + 2 + nl, 3);
    assert(s2.subrange(k + 2 + nl, k + 5 + nl) =~= "ago"@);
    assert(lex_from(s2, s2.len() as int) =~= Seq::<TokM>::empty());
    assert(lex_from(s2, k + 2 + nl) =~= seq![
        TokM { kind: TkM::Ident("ago"@), start: k + 2 + nl, end: k + 5 + nl },
    ]);
    assert(lex_from(s2, k + 1 + nl) =~= lex_from(s2, k + 2 + nl));
    assert(lex_from(s2, k + 1) =~= seq![
        TokM { kind: TkM::Ident(name), start: k + 1, end: k + 1 + nl },
    ] + lex_from(s2, k + 1 + nl));
    assert(lex_from(s2, k) =~= lex_from(s2, k + 1));
    assert(lex_from(s2, 0) =~= seq![TokM { kind: TkM::Number(n as u32), start: 0, end: k }]
        + lex_from(s2, k));
}

/// Phrasing a duration as "-N unit" or as "N unit ago", written out as
/// text, yields the same interval from `parse_duration`: the unit's
/// template scaled by the negated magnitude.
pub proof fn lemma_duration_negation_strings(n: u32, name: Seq<char>)
    requires
        n < 10000,
        1 <= name.len(),
        forall|i: int| 0 <= i < name.len() ==> is_alpha(#[trigger] name[i]),
        time_unit_spec(name) is Some,
        month_name_spec(name) is None,
    ensures
        ({
            let s_neg = seq!['-'] + dec_digits(n as nat) + seq![' '] + name;
            let s_ago = dec_digits(n as nat) + seq![' '] + name + seq![' '] + "ago"@;
            &&& crate::parse_duration_spec(s_neg) == crate::parse_duration_spec(s_ago)
            &&& crate::parse_duration_spec(s_neg) == Ok::<_, ErrSpec>(
                iv_mul(time_unit_spec(name)->0, -(n as int)),
            )
        }),
{
    lemma_lex_duration_phrases(n as nat, name);
    let s_neg = seq!['-'] + dec_digits(n as nat) + seq![' '] + name;
    let s_ago = dec_digits(n as nat) + seq![' '] + name + seq![' '] + "ago"@;
    lemma_duration_negation(lex_spec(s_neg), lex_spec(s_ago), n, name);
}

/// The ten-character "YYYY-MM-DD" rendering of a date, zero-padded.
pub open spec fn iso_chars(d: Date) -> Seq<char> {
    let y = d.year as int;
    let m = d.month as int;
    let dd = d.day as int;
    seq![
        digit_char(y / 1000),
        digit_char((y / 100) % 10),
        digit_char((y / 10) % 10),
        digit_char(y % 10),
        '-',
        digit_char(m / 10),
        digit_char(m % 10),
        '-',
        digit_char(dd / 10),
        digit_char(dd % 10),
    ]
}

proof fn lemma_digit_char(k: int)
    requires
        0 <= k <= 9,
    ensures
        is_digit(digit_char(k)),
        digit_val(digit_char(k)) == k,
        !is_alpha(digit_char(k)),
        !is_ws(digit_char(k)),
{
}

/// The decimal digits of a number below 10000 recombine to the number.
proof fn lemma_four_digit_decomposition(y: int)
    requires
        0 <= y < 10000,
    ensures
        y == 1000 * (y / 1000) + 100 * ((y / 100) % 10) + 10 * ((y / 10) % 10) + y % 10,
        0 <= y / 1000 <= 9,
        0 <= (y / 100) % 10 <= 9,
        0 <= (y / 10) % 10 <= 9,
        0 <= y % 10 <= 9,
{
    vstd::arithmetic::div_mod::lemma_fundamental_div_mod(y, 10);
    vstd::arithmetic::div_mod::lemma_fundamental_div_mod(y / 10, 10);
    vstd::arithmetic::div_mod::lemma_fundamental_div_mod(y / 100, 10);
    vstd::arithmetic::div_mod::lemma_div_denominator(y, 10, 10);
    vstd::arithmetic::div_mod::lemma_div_denominator(y, 100, 10);
    assert((y / 10) / 10 == y / 100);
    assert((y / 100) / 10 == y / 1000);
    assert(y / 1000 <= 9 && 0 <= y / 1000);
    assert(y / 1000 % 10 == y / 1000) by {
        vstd::arithmetic::div_mod::lemma_fundamental_div_mod_converse(
            y / 1000,
            10,
            0,
            y / 1000,
        );
    }
}

/// Lexing "YYYY-MM-DD" yields number, dash, number, dash, number.
proof fn lemma_lex_iso(d: Date)
    requires
        d.wf(),
    ensures
        lex_spec(iso_chars(d)) =~= seq![
            TokM { kind: TkM::Number(d.year as u32), start: 0, end: 4 },
            TokM { kind: TkM::Dash, start: 4, end: 5 },
            TokM { kind: TkM::Number(d.month as u32), start: 5, end: 7 },
            TokM { kind: TkM::Dash, start: 7, end: 8 },
            TokM { kind: TkM::Number(d.day as u32), start: 8, end: 10 },
        ],
{
    let s = iso_chars(d);
    let y = d.year as int;
    let m = d.month as int;
    let dd = d.day as int;
    lemma_four_digit_decomposition(y);
    vstd::arithmetic::div_mod::lemma_fundamental_div_mod(m, 10);
    vstd::arithmetic::div_mod::lemma_fundamental_div_mod(dd, 10);
    lemma_digit_char(y / 1000);
    lemma_digit_char((y / 100) % 10);
    lemma_digit_char((y / 10) % 10);
    lemma_digit_char(y % 10);
    lemma_digit_char(m / 10);
    lemma_digit_char(m % 10);
    lemma_digit_char(dd / 10);
    lemma_digit_char(dd % 10);
    assert(s.len() == 10);
    assert(!is_digit('-') && !is_alpha('-') && !is_ws('-'));
    // the whole rendering is ASCII, so byte offsets equal character positions
    assert(forall|p: int| 0 <= p < s.len() ==> ((#[trigger] s[p]) as u32) < 0x80);
    lemma_byte_off_ascii_prefix(s, 0);
    lemma_byte_off_ascii_prefix(s, 4);
    lemma_byte_off_ascii_prefix(s, 5);
    lemma_byte_off_ascii_prefix(s, 7);
    lemma_byte_off_ascii_prefix(s, 8);
    lemma_byte_off_ascii_prefix(s, 10);
    // digit runs: four for the year, two each for month and day
    reveal_with_fuel(run_len, 6);
    reveal_with_fuel(num_val, 6);
    assert(run_len(s, 0, 4) == 4);
    assert(run_len(s, 5, 4) == 2);
    assert(run_len(s, 8, 4) == 2);
    assert(num_val(s, 0, 4) == y);
    assert(num_val(s, 5, 2) == m);
    assert(num_val(s, 8, 2) == dd);
    // walk the lexer over the ten characters
    assert(lex_from(s, 10) =~= Seq::<TokM>::empty());
    assert(lex_from(s, 8) =~= seq![TokM { kind: TkM::Number(d.day as u32), start: 8, end: 10 }]);
    assert(lex_from(s, 7) =~= seq![
        TokM { kind: TkM::Dash, start: 7, end: 8 },
        TokM { kind: TkM::Number(d.day as u32), start: 8, end: 10 },
    ]);
    assert(lex_from(s, 5) =~= seq![
        TokM { kind: TkM::Number(d.month as u32), start: 5, end: 7 },
        TokM { kind: TkM::Dash, start: 7, end: 8 },
        TokM { kind: TkM::Number(d.day as u32), start: 8, end: 10 },
    ]);
    assert(lex_from(s, 4) =~= seq![
        TokM { kind: TkM::Dash, start: 4, end: 5 },
        TokM { kind: TkM::Number(d.month as u32), start: 5, end: 7 },
        TokM { kind: TkM::Dash, start: 7, end: 8 },
        TokM { kind: TkM::Number(d.day as u32), start: 8, end: 10 },
    ]);
    assert(lex_from(s, 0) =~= seq![
        TokM { kind: TkM::Number(d.year as u32), start: 0, end: 4 },
        TokM { kind: TkM::Dash, start: 4, end: 5 },
        TokM { kind: TkM::Number(d.month as u32), start: 5, end: 7 },
        TokM { kind: TkM::Dash, start: 7, end: 8 },
        TokM { kind: TkM::Number(d.day as u32), start: 8, end: 10 },
    ]);
}

/// Round trip of absolute dates: parsing the "YYYY-MM-DD" rendering of any
/// well-formed date gives back exactly that date, at midnight, offset-free
/// (that is, at the reference's own offset), in either dialect.
pub proof fn lemma_iso_round_trip(d: Date, now: DateTime, dialect: Dialect)
    requires
        d.wf(),
        now.wf(),
    ensures
        crate::parse_date_string_spec(iso_chars(d), now, dialect) == Ok::<_, ErrSpec>(
            DateTime { offset: now.offset, date: d, time: midnight() },
        ),
{
    lemma_lex_iso(d);
    let toks = lex_spec(iso_chars(d));
    assert(toks.len() == 5);
    assert(sp_parse(toks, 0, None, dialect) == Ok::<_, ErrSpec>(
        DateTimeSpec {
            date: Some(
                DateSpec::Absolute(
                    crate::types::AbsDate {
                        year: d.year,
                        month: d.month as u32,
                        day: d.day as u32,
                    },
                ),
            ),
            time: None,
        },
    ));
}

} // verus!