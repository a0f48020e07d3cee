//! Tokenizer and recursive-descent grammar. The lexer turns the input text
//! into a materialized token array (numbers of at most four digits,
//! identifier words, seven punctuation marks, with whitespace skipped and
//! anything else a failure token); the parser walks it with an explicit
//! cursor, using single-token backtracking where the grammar is locally
//! ambiguous. Every step is specified by a spec-level twin, so the parse
//! result is pinned down exactly for every input.

use vstd::prelude::*;

use crate::errors::{res_model, DateError, DateResult, ErrSpec, Span};
use crate::types::{
    eq_ic, iv_mul, iv_val, lc, month_name, month_name_spec, time_unit, time_unit_spec, week_day,
    week_day_spec, AbsDate, ByName, DateSpec, DateTimeSpec, Direction, Interval, TimeSpec,
};
use crate::Dialect;

verus! {

// ---------------------------------------------------------------------------
// Tokens
// ---------------------------------------------------------------------------

/// What kind of time phrase a numeral stashed during date parsing begins.
#[derive(Clone, Copy, Debug, PartialEq, Eq, Structural)]
pub enum TimeKind {
    Formal,
    Informal,
    Am,
    Pm,
    Unknown,
}

/// An executable token: its kind (identifier tokens carry their characters)
/// and its span in the input.
pub struct Tok {
    pub kind: TokKind,
    pub start: usize,
    pub end: usize,
}

pub enum TokKind {
    Number(u32),
    Ident(Vec<char>),
    Dash,
    Slash,
    Colon,
    Dot,
    Comma,
    Plus,
    Bad,
}

/// Mathematical model of a token kind.
pub enum TkM {
    Number(u32),
    Ident(Seq<char>),
    Dash,
    Slash,
    Colon,
    Dot,
    Comma,
    Plus,
    Bad,
}

/// Mathematical model of a token.
pub struct TokM {
    pub kind: TkM,
    pub start: int,
    pub end: int,
}

pub open spec fn kind_model(k: TokKind) -> TkM {
    match k {
        TokKind::Number(n) => TkM::Number(n),
        TokKind::Ident(v) => TkM::Ident(v@),
        TokKind::Dash => TkM::Dash,
        TokKind::Slash => TkM::Slash,
        TokKind::Colon => TkM::Colon,
        TokKind::Dot => TkM::Dot,
        TokKind::Comma => TkM::Comma,
        TokKind::Plus => TkM::Plus,
        TokKind::Bad => TkM::Bad,
    }
}

pub open spec fn tok_model(t: Tok) -> TokM {
    TokM { kind: kind_model(t.kind), start: t.start as int, end: t.end as int }
}

pub open spec fn toks_model(ts: Seq<Tok>) -> Seq<TokM> {
    ts.map_values(|t: Tok| tok_model(t))
}

// ---------------------------------------------------------------------------
// Lexer specification
// ---------------------------------------------------------------------------

pub open spec fn is_ws(c: char) -> bool {
    c == ' ' || c == '\t' || c == '\n' || c == '\u{c}'
}

pub open spec fn is_digit(c: char) -> bool {
    48 <= c as u32 <= 57
}

pub open spec fn is_alpha(c: char) -> bool {
    (65 <= c as u32 <= 90) || (97 <= c as u32 <= 122)
}

pub open spec fn digit_val(c: char) -> int {
    c as u32 - 48
}

/// Length of the digit run starting at `i`, capped at `max` digits.
pub open spec fn run_len(s: Seq<char>, i: int, max: int) -> int
    decreases max,
{
    if max <= 0 || i < 0 || i >= s.len() || !is_digit(s[i]) {
        0
    } else {
        1 + run_len(s, i + 1, max - 1)
    }
}

/// The value of the `n` digits starting at `i`, most significant first.
pub open spec fn num_val(s: Seq<char>, i: int, n: int) -> int
    decreases n,
{
    if n <= 0 {
        0
    } else {
        num_val(s, i, n - 1) * 10 + digit_val(s[i + n - 1])
    }
}

/// The UTF-8 byte length of a character.
pub open spec fn char_len(c: char) -> int {
    vstd::utf8::encode_scalar(c as u32).len() as int
}

/// The byte offset of character position `i` in the text: the UTF-8 length
/// of the first `i` characters. Token spans are byte offsets, as positions
/// into `str::as_bytes` are.
pub open spec fn byte_off(s: Seq<char>, i: int) -> int {
    vstd::utf8::encode_utf8(s.take(i)).len() as int
}

proof fn lemma_encode_utf8_push(t: Seq<char>, c: char)
    ensures
        vstd::utf8::encode_utf8(t.push(c)).len() == vstd::utf8::encode_utf8(t).len()
            + vstd::utf8::encode_scalar(c as u32).len(),
    decreases t.len(),
{
    if t.len() == 0 {
        assert(t.push(c).drop_first() =~= t);
    } else {
        lemma_encode_utf8_push(t.drop_first(), c);
        assert(t.push(c).drop_first() =~= t.drop_first().push(c));
        assert(t.push(c)[0] == t[0]);
    }
}

pub proof fn lemma_byte_off_step(s: Seq<char>, i: int)
    requires
        0 <= i < s.len(),
    ensures
        byte_off(s, i + 1) == byte_off(s, i) + char_len(s[i]),
        1 <= char_len(s[i]) <= 4,
    decreases s.len() - i,
{
    broadcast use vstd::utf8::char_is_scalar;

    lemma_encode_utf8_push(s.take(i), s[i]);
    assert(s.take(i + 1) =~= s.take(i).push(s[i]));
}

pub proof fn lemma_byte_off_mono(s: Seq<char>, i: int, j: int)
    requires
        0 <= i <= j <= s.len(),
    ensures
        byte_off(s, i) <= byte_off(s, j),
    decreases j - i,
{
    if i < j {
        lemma_byte_off_step(s, j - 1);
        lemma_byte_off_mono(s, i, j - 1);
    }
}

/// Over a run of ASCII characters, byte offsets advance one byte per
/// character.
pub proof fn lemma_byte_off_ascii_run(s: Seq<char>, i: int, j: int)
    requires
        0 <= i <= j <= s.len(),
        forall|p: int| i <= p < j ==> ((#[trigger] s[p]) as u32) < 0x80,
    ensures
        byte_off(s, j) == byte_off(s, i) + (j - i),
    decreases j - i,
{
    if i < j {
        lemma_byte_off_step(s, j - 1);
        lemma_byte_off_ascii_run(s, i, j - 1);
    }
}

/// In an all-ASCII prefix, byte offsets and character positions coincide.
pub proof fn lemma_byte_off_ascii_prefix(s: Seq<char>, j: int)
    requires
        0 <= j <= s.len(),
        forall|p: int| 0 <= p < j ==> ((#[trigger] s[p]) as u32) < 0x80,
    ensures
        byte_off(s, j) == j,
{
    assert(s.take(0) =~= Seq::<char>::empty());
    lemma_byte_off_ascii_run(s, 0, j);
}

/// Length of the letter run starting at `i`.
pub open spec fn ident_len(s: Seq<char>, i: int) -> int
    decreases s.len() - i,
    when 0 <= i <= s.len()
{
    if i < s.len() && is_alpha(s[i]) {
        1 + ident_len(s, i + 1)
    } else {
        0
    }
}

pub proof fn lemma_run_len_bounds(s: Seq<char>, i: int, max: int)
    requires
        0 <= i <= s.len(),
        max >= 0,
    ensures
        0 <= run_len(s, i, max) <= max,
        i + run_len(s, i, max) <= s.len(),
    decreases max,
{
    if max > 0 && i < s.len() && is_digit(s[i]) {
        lemma_run_len_bounds(s, i + 1, max - 1);
    }
}

pub proof fn lemma_run_len_digits(s: Seq<char>, i: int, max: int)
    requires
        0 <= i <= s.len(),
        max >= 0,
    ensures
        forall|p: int| i <= p < i + run_len(s, i, max) ==> is_digit(#[trigger] s[p]),
        run_len(s, i, max) < max ==> (i + run_len(s, i, max) == s.len() || !is_digit(
            s[i + run_len(s, i, max)],
        )),
    decreases max,
{
    if max > 0 && i < s.len() && is_digit(s[i]) {
        lemma_run_len_digits(s, i + 1, max - 1);
    }
}

pub proof fn lemma_ident_len_bounds(s: Seq<char>, i: int)
    requires
        0 <= i <= s.len(),
    ensures
        0 <= ident_len(s, i),
        i + ident_len(s, i) <= s.len(),
        forall|p: int| i <= p < i + ident_len(s, i) ==> is_alpha(#[trigger] s[p]),
        i + ident_len(s, i) == s.len() || !is_alpha(s[i + ident_len(s, i)]),
    decreases s.len() - i,
{
    if i < s.len() && is_alpha(s[i]) {
        lemma_ident_len_bounds(s, i + 1);
    }
}

/// Converse characterization: a maximal digit run of known extent fixes
/// `run_len`.
pub proof fn lemma_run_len_is(s: Seq<char>, i: int, max: int, k: int)
    requires
        0 <= i,
        0 <= k <= max,
        i + k <= s.len(),
        forall|p: int| i <= p < i + k ==> is_digit(#[trigger] s[p]),
        k < max ==> (i + k == s.len() || !is_digit(s[i + k])),
    ensures
        run_len(s, i, max) == k,
    decreases k,
{
    if k == 0 {
    } else {
        lemma_run_len_is(s, i + 1, max - 1, k - 1);
    }
}

/// Converse characterization: a maximal letter run of known extent fixes
/// `ident_len`.
pub proof fn lemma_ident_len_is(s: Seq<char>, i: int, k: int)
    requires
        0 <= i,
        0 <= k,
        i + k <= s.len(),
        forall|p: int| i <= p < i + k ==> is_alpha(#[trigger] s[p]),
        i + k == s.len() || !is_alpha(s[i + k]),
    ensures
        ident_len(s, i) == k,
    decreases k,
{
    if k == 0 {
    } else {
        lemma_ident_len_is(s, i + 1, k - 1);
    }
}

pub proof fn lemma_num_val_bound(s: Seq<char>, i: int, n: int)
    requires
        0 <= n <= 4,
        forall|p: int| i <= p < i + n ==> is_digit(#[trigger] s[p]),
    ensures
        0 <= num_val(s, i, n) < pow10(n),
    decreases n,
{
    if n > 0 {
        lemma_num_val_bound(s, i, n - 1);
        assert(is_digit(s[i + n - 1]));
        assert(pow10(n) == 10 * pow10(n - 1));
    }
}

pub open spec fn pow10(n: int) -> int
    decreases n,
{
    if n <= 0 {
        1
    } else {
        10 * pow10(n - 1)
    }
}

/// The token sequence of the input from position `i` on.
pub open spec fn lex_from(s: Seq<char>, i: int) -> Seq<TokM>
    decreases s.len() - i,
    when 0 <= i
    via lex_from_dec
{
    if i < 0 || i >= s.len() {
        Seq::empty()
    } else {
        let c = s[i];
        if is_ws(c) {
            lex_from(s, i + 1)
        } else if is_digit(c) {
            let n = run_len(s, i, 4);
            seq![
                TokM {
                    kind: TkM::Number(num_val(s, i, n) as u32),
                    start: byte_off(s, i),
                    end: byte_off(s, i + n),
                },
            ] + lex_from(s, i + n)
        } else if is_alpha(c) {
            let n = ident_len(s, i);
            seq![
                TokM {
                    kind: TkM::Ident(s.subrange(i, i + n)),
                    start: byte_off(s, i),
                    end: byte_off(s, i + n),
                },
            ] + lex_from(s, i + n)
        } else if c == '-' {
            seq![TokM { kind: TkM::Dash, start: byte_off(s, i), end: byte_off(s, i + 1) }]
                + lex_from(s, i + 1)
        } else if c == '/' {
            seq![TokM { kind: TkM::Slash, start: byte_off(s, i), end: byte_off(s, i + 1) }]
                + lex_from(s, i + 1)
        } else if c == ':' {
            seq![TokM { kind: TkM::Colon, start: byte_off(s, i), end: byte_off(s, i + 1) }]
                + lex_from(s, i + 1)
        } else if c == '.' {
            seq![TokM { kind: TkM::Dot, start: byte_off(s, i), end: byte_off(s, i + 1) }]
                + lex_from(s, i + 1)
        } else if c == ',' {
            seq![TokM { kind: TkM::Comma, start: byte_off(s, i), end: byte_off(s, i + 1) }]
                + lex_from(s, i + 1)
        } else if c == '+' {
            seq![TokM { kind: TkM::Plus, start: byte_off(s, i), end: byte_off(s, i + 1) }]
                + lex_from(s, i + 1)
        } else {
            seq![TokM { kind: TkM::Bad, start: byte_off(s, i), end: byte_off(s, i + 1) }]
                + lex_from(s, i + 1)
        }
    }
}

#[via_fn]
proof fn lex_from_dec(s: Seq<char>, i: int) {
    if 0 <= i < s.len() {
        lemma_run_len_bounds(s, i, 4);
        lemma_ident_len_bounds(s, i);
        if is_digit(s[i]) {
            lemma_run_len_bounds(s, i + 1, 3);
            assert(run_len(s, i, 4) >= 1);
        }
        if is_alpha(s[i]) {
            lemma_ident_len_bounds(s, i + 1);
            assert(ident_len(s, i) >= 1);
        }
    }
}

/// The token sequence of the whole input.
pub open spec fn lex_spec(s: Seq<char>) -> Seq<TokM> {
    lex_from(s, 0)
}

// ---------------------------------------------------------------------------
// Executable lexer
// ---------------------------------------------------------------------------

fn digit_run(s: &str, i: usize, max: usize) -> (k: usize)
    requires
        i <= s@.len(),
    ensures
        k as int == run_len(s@, i as int, max as int),
        k <= max,
        i + k <= s@.len(),
    decreases max,
{
    if max == 0 || i >= s.unicode_len() {
        return 0;
    }
    let v = s.get_char(i) as u32;
    if 48 <= v && v <= 57 {
        let k = digit_run(s, i + 1, max - 1);
        1 + k
    } else {
        0
    }
}

fn ident_run(s: &str, i: usize) -> (k: usize)
    requires
        i <= s@.len(),
    ensures
        k as int == ident_len(s@, i as int),
        i + k <= s@.len(),
    decreases s@.len() - i,
{
    if i >= s.unicode_len() {
        return 0;
    }
    let v = s.get_char(i) as u32;
    if (65 <= v && v <= 90) || (97 <= v && v <= 122) {
        let k = ident_run(s, i + 1);
        1 + k
    } else {
        0
    }
}

/// Tokenizes the input text.
fn char_width(c: char) -> (w: usize)
    ensures
        w as int == char_len(c),
{
    proof {
        broadcast use vstd::utf8::char_is_scalar;

    }
    let v = c as u32;
    if v < 0x80 {
        1
    } else if v < 0x800 {
        2
    } else if v < 0x10000 {
        3
    } else {
        4
    }
}

pub(crate) fn lex(s: &str) -> (toks: Vec<Tok>)
    ensures
        toks_model(toks@) == lex_spec(s@),
{
    let n = s.unicode_len();
    let total_bytes = s.as_bytes().len();
    proof {
        broadcast use vstd::slice::axiom_spec_len;

        assert(s@.take(n as int) =~= s@);
        assert(byte_off(s@, n as int) == total_bytes as int);
    }
    let mut toks: Vec<Tok> = Vec::new();
    let mut i: usize = 0;
    let mut b: usize = 0;
    while i < n
        invariant
            n == s@.len(),
            i <= n,
            b as int == byte_off(s@, i as int),
            byte_off(s@, n as int) <= usize::MAX,
            lex_spec(s@) == toks_model(toks@) + lex_from(s@, i as int),
        decreases n - i,
    {
        let ghost prev_toks = toks@;
        let c = s.get_char(i);
        let v = c as u32;
        if c == ' ' || c == '\t' || c == '\n' || c == '\u{c}' {
            let w = char_width(c);
            proof {
                lemma_byte_off_step(s@, i as int);
                lemma_byte_off_mono(s@, i as int + 1, n as int);
            }
            b = b + w;
            i = i + 1;
        } else if 48 <= v && v <= 57 {
            let k = digit_run(s, i, 4);
            proof {
                lemma_run_len_digits(s@, i as int, 4);
                lemma_num_val_bound(s@, i as int, k as int);
                lemma_byte_off_ascii_run(s@, i as int, i + k);
                lemma_byte_off_mono(s@, i + k, n as int);
            }
            let mut val: u32 = 0;
            let mut j: usize = 0;
            while j < k
                invariant
                    j <= k <= 4,
                    i + k <= s@.len(),
                    s@.len() <= usize::MAX,
                    val == num_val(s@, i as int, j as int),
                    forall|p: int| i <= p < i + k ==> is_digit(#[trigger] s@[p]),
                decreases k - j,
            {
                proof {
                    lemma_num_val_bound(s@, i as int, j as int);
                    assert(pow10(j as int) <= 1000) by {
                        reveal_with_fuel(pow10, 5);
                    }
                }
                let d = s.get_char(i + j) as u32 - 48;
                val = val * 10 + d;
                j = j + 1;
            }
            toks.push(Tok { kind: TokKind::Number(val), start: b, end: b + k });
            proof {
                assert(toks_model(toks@) =~= toks_model(prev_toks) + seq![
                    TokM {
                        kind: TkM::Number(num_val(s@, i as int, k as int) as u32),
                        start: byte_off(s@, i as int),
                        end: byte_off(s@, i + k),
                    },
                ]);
            }
            b = b + k;
            i = i + k;
        } else if (65 <= v && v <= 90) || (97 <= v && v <= 122) {
            let k = ident_run(s, i);
            proof {
                lemma_ident_len_bounds(s@, i as int);
                lemma_byte_off_ascii_run(s@, i as int, i + k);
                lemma_byte_off_mono(s@, i + k, n as int);
            }
            let mut chars: Vec<char> = Vec::new();
            let mut j: usize = 0;
            while j < k
                invariant
                    j <= k,
                    i + k <= s@.len(),
                    s@.len() <= usize::MAX,
                    chars@ == s@.subrange(i as int, i + j),
                decreases k - j,
            {
                chars.push(s.get_char(i + j));
                proof {
                    assert(chars@ =~= s@.subrange(i as int, i + j + 1));
                }
                j = j + 1;
            }
            toks.push(Tok { kind: TokKind::Ident(chars), start: b, end: b + k });
            proof {
                assert(toks_model(toks@) =~= toks_model(prev_toks) + seq![
                    TokM {
                        kind: TkM::Ident(s@.subrange(i as int, i + k)),
                        start: byte_off(s@, i as int),
                        end: byte_off(s@, i + k),
                    },
                ]);
            }
            b = b + k;
            i = i + k;
        } else {
            let kind = if c == '-' {
                TokKind::Dash
            } else if c == '/' {
                TokKind::Slash
            } else if c == ':' {
                TokKind::Colon
            } else if c == '.' {
                TokKind::Dot
            } else if c == ',' {
                TokKind::Comma
            } else if c == '+' {
                TokKind::Plus
            } else {
                TokKind::Bad
            };
            let w = char_width(c);
            proof {
                lemma_byte_off_step(s@, i as int);
                lemma_byte_off_mono(s@, i as int + 1, n as int);
            }
            let ghost km = kind_model(kind);
            toks.push(Tok { kind, start: b, end: b + w });
            proof {
                assert(toks_model(toks@) =~= toks_model(prev_toks) + seq![
                    TokM { kind: km, start: byte_off(s@, i as int), end: byte_off(s@, i as int + 1) },
                ]);
            }
            b = b + w;
            i = i + 1;
        }
    }
    proof {
        assert(lex_spec(s@) =~= toks_model(toks@));
    }
    toks
}

/// Every number token the lexer produces has one to four digits, its span
/// covers exactly those digits, and its value fits them.
pub open spec fn wf_toks(toks: Seq<TokM>) -> bool {
    forall|i: int|
        0 <= i < toks.len() && toks[i].kind is Number ==> {
            &&& (#[trigger] toks[i].kind)->Number_0 < 10000
            &&& 1 <= toks[i].end - toks[i].start <= 4
            &&& toks[i].kind->Number_0 < pow10(toks[i].end - toks[i].start)
        }
}

pub proof fn lemma_lex_wf(s: Seq<char>, i: int)
    requires
        0 <= i,
    ensures
        wf_toks(lex_from(s, i)),
    decreases s.len() - i,
{
    if 0 <= i < s.len() {
        let c = s[i];
        if is_ws(c) {
            lemma_lex_wf(s, i + 1);
        } else if is_digit(c) {
            let n = run_len(s, i, 4);
            lemma_run_len_bounds(s, i, 4);
            lemma_run_len_digits(s, i, 4);
            lemma_num_val_bound(s, i, n);
            lemma_byte_off_ascii_run(s, i, i + n);
            assert(pow10(n) <= 10000) by {
                reveal_with_fuel(pow10, 5);
            }
            lemma_lex_wf(s, i + n);
        } else if is_alpha(c) {
            lemma_ident_len_bounds(s, i);
            lemma_lex_wf(s, i + ident_len(s, i));
        } else {
            lemma_lex_wf(s, i + 1);
        }
    }
}

// ---------------------------------------------------------------------------
// Grammar specification
//
// Each spec function mirrors one production and returns the parse result
// together with the cursor position after it; `sp_parse_date` additionally
// returns the pending hour carried into time parsing, `None` meaning the
// carry is left untouched.
// ---------------------------------------------------------------------------

/// Reads one number token; any other token, or the end of input, is an error.
pub open spec fn sp_next_num(toks: Seq<TokM>, pos: int) -> (Result<u32, ErrSpec>, int) {
    if 0 <= pos < toks.len() {
        if toks[pos].kind is Number {
            (Ok(toks[pos].kind->Number_0), pos + 1)
        } else {
            (Err(ErrSpec::ExpectedToken("number"@, toks[pos].start, toks[pos].end)), pos + 1)
        }
    } else {
        (Err(ErrSpec::EndOfText("number"@)), pos)
    }
}

/// `year - month - day`, the year already read.
pub open spec fn sp_iso_date(toks: Seq<TokM>, pos: int, year: i32) -> (
    Result<DateSpec, ErrSpec>,
    int,
) {
    let (rm, p1) = sp_next_num(toks, pos);
    match rm {
        Err(e) => (Err(e), p1),
        Ok(month) => {
            if 0 <= p1 < toks.len() {
                if toks[p1].kind is Dash {
                    let (rd, p2) = sp_next_num(toks, p1 + 1);
                    match rd {
                        Err(e) => (Err(e), p2),
                        Ok(day) => (Ok(DateSpec::Absolute(AbsDate { year, month, day })), p2),
                    }
                } else {
                    (Err(ErrSpec::ExpectedToken("'-'"@, toks[p1].start, toks[p1].end)), p1 + 1)
                }
            } else {
                (Err(ErrSpec::EndOfText("'-'"@)), p1)
            }
        },
    }
}

/// Slash-form date, the first number and the slash already read: the
/// dialect decides the day/month order, a second slash introduces a year
/// with a two-digit pivot (00-40 is 2000s, 41-99 is 1900s).
pub open spec fn sp_informal_date(
    toks: Seq<TokM>,
    pos: int,
    day_or_month: u32,
    dialect: Dialect,
    direct: Direction,
) -> (Result<DateSpec, ErrSpec>, int) {
    let (rm, p1) = sp_next_num(toks, pos);
    match rm {
        Err(e) => (Err(e), p1),
        Ok(month_or_day) => {
            let day = if dialect is Us {
                month_or_day
            } else {
                day_or_month
            };
            let month = if dialect is Us {
                day_or_month
            } else {
                month_or_day
            };
            if 0 <= p1 < toks.len() && toks[p1].kind is Slash {
                let (ry, p2) = sp_next_num(toks, p1 + 1);
                match ry {
                    Err(e) => (Err(e), p2),
                    Ok(y) => {
                        let yi = y as i32;
                        let year = if 0 <= yi <= 40 {
                            (2000 + yi) as i32
                        } else if 41 <= yi <= 99 {
                            (1900 + yi) as i32
                        } else {
                            yi
                        };
                        (Ok(DateSpec::Absolute(AbsDate { year, month, day })), p2)
                    },
                }
            } else {
                (Ok(DateSpec::FromName(ByName::DayMonth { day, month }, direct)), p1)
            }
        },
    }
}

/// After a month-name word: an optional day, then an optional `, year`.
pub open spec fn sp_month_ident(toks: Seq<TokM>, pos: int, month: u32, direct: Direction) -> (
    Result<Option<DateSpec>, ErrSpec>,
    int,
    Option<(u32, TimeKind)>,
) {
    if 0 <= pos < toks.len() && toks[pos].kind is Number {
        let day = toks[pos].kind->Number_0;
        if pos + 1 < toks.len() && toks[pos + 1].kind is Comma {
            let (ry, p2) = sp_next_num(toks, pos + 2);
            match ry {
                Err(e) => (Err(e), p2, None),
                Ok(y) => (
                    Ok(Some(DateSpec::Absolute(AbsDate { year: y as i32, month, day }))),
                    p2,
                    None,
                ),
            }
        } else {
            // no comma: leave the cursor after the day so a time phrase can
            // still claim it
            (Ok(Some(DateSpec::FromName(ByName::DayMonth { day, month }, direct))), pos + 1, None)
        }
    } else if 0 <= pos < toks.len() {
        (Ok(Some(DateSpec::FromName(ByName::MonthName(month), direct))), pos + 1, None)
    } else {
        (Ok(Some(DateSpec::FromName(ByName::MonthName(month), direct))), pos, None)
    }
}

/// After a leading number: a date, a relative interval, or the start of a
/// time phrase.
pub open spec fn sp_number(
    toks: Seq<TokM>,
    pos: int,
    n: u32,
    dialect: Dialect,
    sign: bool,
    direct: Option<Direction>,
) -> (Result<Option<DateSpec>, ErrSpec>, int, Option<(u32, TimeKind)>) {
    if !(0 <= pos < toks.len()) {
        if sign {
            (Err(ErrSpec::EndOfText("duration"@)), pos, None)
        } else if direct is Some {
            (Err(ErrSpec::EndOfText("day or month name"@)), pos, None)
        } else {
            (Ok(Some(DateSpec::Absolute(AbsDate { year: n as i32, month: 1, day: 1 }))), pos, None)
        }
    } else {
        let t = toks[pos];
        if t.kind is Comma || t.kind is Plus || t.kind is Number || t.kind is Bad {
            (Err(ErrSpec::ExpectedToken("date"@, t.start, t.end)), pos + 1, None)
        } else if (t.kind is Colon || t.kind is Dot || t.kind is Dash) && direct is Some {
            (Err(ErrSpec::EndOfText("day or month name"@)), pos + 1, None)
        } else if t.kind is Ident {
            let direct1 = if direct is Some {
                direct->0
            } else {
                Direction::Here
            };
            let name = t.kind->Ident_0;
            if month_name_spec(name) is Some {
                let month = month_name_spec(name)->0;
                if pos + 1 < toks.len() && toks[pos + 1].kind is Number {
                    let y = toks[pos + 1].kind->Number_0;
                    (
                        Ok(Some(DateSpec::Absolute(AbsDate { year: y as i32, month, day: n }))),
                        pos + 2,
                        None,
                    )
                } else if pos + 1 < toks.len() {
                    (
                        Ok(Some(DateSpec::FromName(ByName::DayMonth { day: n, month }, direct1))),
                        pos + 2,
                        None,
                    )
                } else {
                    (
                        Ok(Some(DateSpec::FromName(ByName::DayMonth { day: n, month }, direct1))),
                        pos + 1,
                        None,
                    )
                }
            } else if time_unit_spec(name) is Some {
                let u = time_unit_spec(name)->0;
                let ni = n as i32;
                if sign {
                    (Ok(Some(DateSpec::Relative(iv_mul(u, -(ni as int))))), pos + 1, None)
                } else {
                    if pos + 1 < toks.len() && toks[pos + 1].kind is Ident {
                        if toks[pos + 1].kind->Ident_0 == "ago"@ {
                            (Ok(Some(DateSpec::Relative(iv_mul(u, -(ni as int))))), pos + 2, None)
                        } else {
                            (
                                Err(
                                    ErrSpec::ExpectedToken(
                                        "'ago'"@,
                                        toks[pos + 1].start,
                                        toks[pos + 1].end,
                                    ),
                                ),
                                pos + 2,
                                None,
                            )
                        }
                    } else if pos + 1 < toks.len() && toks[pos + 1].kind is Number {
                        (
                            Ok(Some(DateSpec::Relative(iv_mul(u, ni as int)))),
                            pos + 2,
                            Some((toks[pos + 1].kind->Number_0, TimeKind::Unknown)),
                        )
                    } else if pos + 1 < toks.len() {
                        (Ok(Some(DateSpec::Relative(iv_mul(u, ni as int)))), pos + 2, None)
                    } else {
                        (Ok(Some(DateSpec::Relative(iv_mul(u, ni as int)))), pos + 1, None)
                    }
                }
            } else if eq_ic(name, "am"@) {
                (Ok(None), pos + 1, Some((n, TimeKind::Am)))
            } else if eq_ic(name, "pm"@) {
                (Ok(None), pos + 1, Some((n, TimeKind::Pm)))
            } else {
                (Err(ErrSpec::ExpectedToken("month or time unit"@, t.start, t.end)), pos + 1, None)
            }
        } else if t.kind is Colon {
            (Ok(None), pos + 1, Some((n, TimeKind::Formal)))
        } else if t.kind is Dot {
            (Ok(None), pos + 1, Some((n, TimeKind::Informal)))
        } else if t.kind is Dash {
            let (r, p2) = sp_iso_date(toks, pos + 1, n as i32);
            match r {
                Err(e) => (Err(e), p2, None),
                Ok(ds) => (Ok(Some(ds)), p2, None),
            }
        } else {
            // Slash
            let direct1 = if direct is Some {
                direct->0
            } else {
                Direction::Here
            };
            let (r, p2) = sp_informal_date(toks, pos + 1, n, dialect, direct1);
            match r {
                Err(e) => (Err(e), p2, None),
                Ok(ds) => (Ok(Some(ds)), p2, None),
            }
        }
    }
}

/// The decisive token of the date phrase, after any leading minus sign or
/// direction word.
pub open spec fn sp_parse_date_tok(
    toks: Seq<TokM>,
    tpos: int,
    dialect: Dialect,
    sign: bool,
    direct: Option<Direction>,
) -> (Result<Option<DateSpec>, ErrSpec>, int, Option<(u32, TimeKind)>) {
    if !(0 <= tpos < toks.len()) {
        (Err(ErrSpec::EndOfText("empty date string"@)), tpos, None)
    } else {
        let t = toks[tpos];
        if t.kind is Colon || t.kind is Comma || t.kind is Dash || t.kind is Dot || t.kind is Slash
            || t.kind is Plus || t.kind is Bad {
            (Err(ErrSpec::MissingDate), tpos + 1, None)
        } else if t.kind is Ident {
            if sign {
                (Err(ErrSpec::ExpectedToken("number"@, t.start, t.end)), tpos + 1, None)
            } else {
                let direct1 = if direct is Some {
                    direct->0
                } else {
                    Direction::Here
                };
                let name = t.kind->Ident_0;
                if month_name_spec(name) is Some {
                    sp_month_ident(toks, tpos + 1, month_name_spec(name)->0, direct1)
                } else if week_day_spec(name) is Some {
                    (
                        Ok(
                            Some(
                                DateSpec::FromName(
                                    ByName::WeekDay(week_day_spec(name)->0),
                                    direct1,
                                ),
                            ),
                        ),
                        tpos + 1,
                        None,
                    )
                } else if time_unit_spec(name) is Some {
                    let interval = time_unit_spec(name)->0;
                    let scaled = if direct1 is Last {
                        iv_mul(interval, -1)
                    } else if direct1 is Here {
                        iv_mul(interval, 0)
                    } else {
                        interval
                    };
                    (Ok(Some(DateSpec::Relative(scaled))), tpos + 1, None)
                } else {
                    (
                        Err(ErrSpec::ExpectedToken("unsupported identifier"@, t.start, t.end)),
                        tpos + 1,
                        None,
                    )
                }
            }
        } else {
            // Number
            sp_number(toks, tpos + 1, t.kind->Number_0, dialect, sign, direct)
        }
    }
}

/// The date phrase: an optional leading `-` or direction word, then the
/// decisive token; `now`/`today`/`yesterday`/`tomorrow` short-circuit to a
/// fixed day-relative interval.
pub open spec fn sp_parse_date(toks: Seq<TokM>, pos: int, dialect: Dialect) -> (
    Result<Option<DateSpec>, ErrSpec>,
    int,
    Option<(u32, TimeKind)>,
) {
    if 0 <= pos < toks.len() && toks[pos].kind is Dash {
        sp_parse_date_tok(toks, pos + 1, dialect, true, None)
    } else if 0 <= pos < toks.len() && toks[pos].kind is Ident {
        let name = toks[pos].kind->Ident_0;
        if name == "now"@ || name == "today"@ {
            (Ok(Some(DateSpec::Relative(Interval::Days(0)))), pos + 1, None)
        } else if name == "yesterday"@ {
            (Ok(Some(DateSpec::Relative(Interval::Days(-1i32)))), pos + 1, None)
        } else if name == "tomorrow"@ {
            (Ok(Some(DateSpec::Relative(Interval::Days(1)))), pos + 1, None)
        } else if name == "next"@ {
            sp_parse_date_tok(toks, pos + 1, dialect, false, Some(Direction::Next))
        } else if name == "last"@ {
            sp_parse_date_tok(toks, pos + 1, dialect, false, Some(Direction::Last))
        } else if name == "this"@ {
            sp_parse_date_tok(toks, pos + 1, dialect, false, Some(Direction::Here))
        } else {
            sp_parse_date_tok(toks, pos, dialect, false, None)
        }
    } else {
        sp_parse_date_tok(toks, pos, dialect, false, None)
    }
}

/// A fractional-seconds digit run read as microseconds: the digits are a
/// decimal fraction of a second, padded to six digits when shorter (".5"
/// is 500000 microseconds) and truncated to the six most significant
/// digits when longer.
pub open spec fn frac_micros(f: u32, digits: int) -> u32 {
    if digits <= 6 {
        (f * pow10(6 - digits)) as u32
    } else {
        (f as int / pow10(digits - 6)) as u32
    }
}

/// The tail of a formal time: nothing, a numeric UTC offset introduced by
/// `+`/`-` (either `HH:MM` or packed `HHMM`), a literal `Z`, or a meridiem.
pub open spec fn sp_formal_tail(
    toks: Seq<TokM>,
    pos: int,
    hour: u32,
    min: u32,
    sec: u32,
    micros: u32,
) -> (Result<TimeSpec, ErrSpec>, int) {
    if !(0 <= pos < toks.len()) {
        (Ok(TimeSpec { hour, min, sec, microsec: micros, offset: None }), pos)
    } else {
        let t = toks[pos];
        if t.kind is Plus || t.kind is Dash {
            let sign: int = if t.kind is Dash {
                -1
            } else {
                1
            };
            let (rh, p1) = sp_next_num(toks, pos + 1);
            match rh {
                Err(e) => (Err(e), p1),
                Ok(hours0) => {
                    if 0 <= p1 < toks.len() && toks[p1].kind is Colon {
                        let (rmn, p2) = sp_next_num(toks, p1 + 1);
                        match rmn {
                            Err(e) => (Err(e), p2),
                            Ok(minutes) => {
                                let res = 60 * (minutes + 60 * hours0);
                                (
                                    Ok(
                                        TimeSpec {
                                            hour,
                                            min,
                                            sec,
                                            microsec: micros,
                                            offset: Some((res * sign) as i64),
                                        },
                                    ),
                                    p2,
                                )
                            },
                        }
                    } else {
                        // packed HHMM: the non-colon token is backtracked
                        let minutes = hours0 as int % 100;
                        let hours1 = hours0 as int / 100;
                        let res = 60 * (minutes + 60 * hours1);
                        (
                            Ok(
                                TimeSpec {
                                    hour,
                                    min,
                                    sec,
                                    microsec: micros,
                                    offset: Some((res * sign) as i64),
                                },
                            ),
                            p1,
                        )
                    }
                },
            }
        } else if t.kind is Ident {
            let name = t.kind->Ident_0;
            if name == "Z"@ {
                (Ok(TimeSpec { hour, min, sec, microsec: micros, offset: Some(0) }), pos + 1)
            } else if eq_ic(name, "am"@) {
                if hour == 12 {
                    (Ok(TimeSpec { hour: 0, min, sec, microsec: micros, offset: None }), pos + 1)
                } else {
                    (Ok(TimeSpec { hour, min, sec, microsec: micros, offset: None }), pos + 1)
                }
            } else if eq_ic(name, "pm"@) {
                if hour == 12 {
                    (Ok(TimeSpec { hour: 12, min, sec, microsec: micros, offset: None }), pos + 1)
                } else {
                    (
                        Ok(
                            TimeSpec {
                                hour: (hour + 12) as u32,
                                min,
                                sec,
                                microsec: micros,
                                offset: None,
                            },
                        ),
                        pos + 1,
                    )
                }
            } else {
                (Err(ErrSpec::ExpectedToken("expected Z/am/pm"@, t.start, t.end)), pos + 1)
            }
        } else {
            (Err(ErrSpec::ExpectedToken("expected timezone"@, t.start, t.end)), pos + 1)
        }
    }
}

/// A formal time `hour:min[:sec[.frac]]` with optional offset or meridiem,
/// the hour and the colon already read. A `+`/`-` offset may follow the
/// minutes directly or the seconds; the fractional digits are scaled to
/// microseconds by their count, which the fraction token's span carries.
pub open spec fn sp_formal_time(toks: Seq<TokM>, pos: int, hour: u32) -> (
    Result<TimeSpec, ErrSpec>,
    int,
) {
    let (rm, p1) = sp_next_num(toks, pos);
    match rm {
        Err(e) => (Err(e), p1),
        Ok(min) => {
            if 0 <= p1 < toks.len() && toks[p1].kind is Colon {
                let (rs, p2) = sp_next_num(toks, p1 + 1);
                match rs {
                    Err(e) => (Err(e), p2),
                    Ok(sec) => {
                        if 0 <= p2 < toks.len() && toks[p2].kind is Dot {
                            if p2 + 1 < toks.len() {
                                let ft = toks[p2 + 1];
                                if ft.kind is Number {
                                    let micros = frac_micros(
                                        ft.kind->Number_0,
                                        ft.end - ft.start,
                                    );
                                    sp_formal_tail(toks, p2 + 2, hour, min, sec, micros)
                                } else {
                                    (
                                        Err(
                                            ErrSpec::ExpectedToken("number"@, ft.start, ft.end),
                                        ),
                                        p2 + 2,
                                    )
                                }
                            } else {
                                (Err(ErrSpec::EndOfText("number"@)), p2 + 1)
                            }
                        } else {
                            sp_formal_tail(toks, p2, hour, min, sec, 0)
                        }
                    },
                }
            } else if 0 <= p1 < toks.len() && (toks[p1].kind is Slash || toks[p1].kind is Dot
                || toks[p1].kind is Comma || toks[p1].kind is Bad) {
                (Err(ErrSpec::ExpectedToken("':'"@, toks[p1].start, toks[p1].end)), p1 + 1)
            } else {
                sp_formal_tail(toks, p1, hour, min, 0, 0)
            }
        },
    }
}

/// An informal time `hour.min` with optional meridiem, the hour and the dot
/// already read.
pub open spec fn sp_informal_time(toks: Seq<TokM>, pos: int, hour: u32) -> (
    Result<TimeSpec, ErrSpec>,
    int,
) {
    let (rm, p1) = sp_next_num(toks, pos);
    match rm {
        Err(e) => (Err(e), p1),
        Ok(min) => {
            if !(0 <= p1 < toks.len()) {
                (Ok(TimeSpec { hour, min, sec: 0, microsec: 0, offset: None }), p1)
            } else if toks[p1].kind is Ident && eq_ic(toks[p1].kind->Ident_0, "am"@) {
                let h = if hour == 12 {
                    0u32
                } else {
                    hour
                };
                (Ok(TimeSpec { hour: h, min, sec: 0, microsec: 0, offset: None }), p1 + 1)
            } else if toks[p1].kind is Ident && eq_ic(toks[p1].kind->Ident_0, "pm"@) {
                let h = if hour == 12 {
                    12u32
                } else {
                    (hour + 12) as u32
                };
                (Ok(TimeSpec { hour: h, min, sec: 0, microsec: 0, offset: None }), p1 + 1)
            } else {
                (
                    Err(ErrSpec::ExpectedToken("expected am/pm"@, toks[p1].start, toks[p1].end)),
                    p1 + 1,
                )
            }
        },
    }
}

/// The time phrase: resumes from a pending hour stashed by the date phrase,
/// or looks for an optional `T` separator and a fresh hour; no further
/// tokens means no time component.
pub open spec fn sp_parse_time(
    toks: Seq<TokM>,
    pos: int,
    maybe_time: Option<(u32, TimeKind)>,
) -> (Result<Option<TimeSpec>, ErrSpec>, int) {
    if maybe_time is Some {
        let (h, kind) = maybe_time->0;
        match kind {
            TimeKind::Formal => {
                let (r, p1) = sp_formal_time(toks, pos, h);
                match r {
                    Err(e) => (Err(e), p1),
                    Ok(ts) => (Ok(Some(ts)), p1),
                }
            },
            TimeKind::Informal => {
                let (r, p1) = sp_informal_time(toks, pos, h);
                match r {
                    Err(e) => (Err(e), p1),
                    Ok(ts) => (Ok(Some(ts)), p1),
                }
            },
            TimeKind::Am => {
                if h == 12 {
                    (
                        Ok(Some(TimeSpec { hour: 0, min: 0, sec: 0, microsec: 0, offset: None })),
                        pos,
                    )
                } else {
                    (
                        Ok(Some(TimeSpec { hour: h, min: 0, sec: 0, microsec: 0, offset: None })),
                        pos,
                    )
                }
            },
            TimeKind::Pm => {
                if h == 12 {
                    (
                        Ok(Some(TimeSpec { hour: 12, min: 0, sec: 0, microsec: 0, offset: None })),
                        pos,
                    )
                } else {
                    (
                        Ok(
                            Some(
                                TimeSpec {
                                    hour: (h + 12) as u32,
                                    min: 0,
                                    sec: 0,
                                    microsec: 0,
                                    offset: None,
                                },
                            ),
                        ),
                        pos,
                    )
                }
            },
            TimeKind::Unknown => {
                if 0 <= pos < toks.len() && toks[pos].kind is Colon {
                    let (r, p1) = sp_formal_time(toks, pos + 1, h);
                    match r {
                        Err(e) => (Err(e), p1),
                        Ok(ts) => (Ok(Some(ts)), p1),
                    }
                } else if 0 <= pos < toks.len() && toks[pos].kind is Dot {
                    let (r, p1) = sp_informal_time(toks, pos + 1, h);
                    match r {
                        Err(e) => (Err(e), p1),
                        Ok(ts) => (Ok(Some(ts)), p1),
                    }
                } else if 0 <= pos < toks.len() {
                    (
                        Err(ErrSpec::ExpectedToken(": or ."@, toks[pos].start, toks[pos].end)),
                        pos + 1,
                    )
                } else {
                    (Err(ErrSpec::EndOfText(": or ."@)), pos)
                }
            },
        }
    } else {
        let p0 = if 0 <= pos < toks.len() && toks[pos].kind is Ident && toks[pos].kind->Ident_0
            == "T"@ {
            pos + 1
        } else {
            pos
        };
        if !(0 <= p0 < toks.len()) {
            (Ok(None), p0)
        } else if toks[p0].kind is Number {
            let hour = toks[p0].kind->Number_0;
            let p1 = p0 + 1;
            if 0 <= p1 < toks.len() && toks[p1].kind is Colon {
                let (r, p2) = sp_formal_time(toks, p1 + 1, hour);
                match r {
                    Err(e) => (Err(e), p2),
                    Ok(ts) => (Ok(Some(ts)), p2),
                }
            } else if 0 <= p1 < toks.len() && toks[p1].kind is Dot {
                let (r, p2) = sp_informal_time(toks, p1 + 1, hour);
                match r {
                    Err(e) => (Err(e), p2),
                    Ok(ts) => (Ok(Some(ts)), p2),
                }
            } else if 0 <= p1 < toks.len() && toks[p1].kind is Ident {
                let name = toks[p1].kind->Ident_0;
                if eq_ic(name, "am"@) {
                    (
                        Ok(
                            Some(TimeSpec { hour, min: 0, sec: 0, microsec: 0, offset: None }),
                        ),
                        p1 + 1,
                    )
                } else if eq_ic(name, "pm"@) {
                    (
                        Ok(
                            Some(
                                TimeSpec {
                                    hour: (hour + 12) as u32,
                                    min: 0,
                                    sec: 0,
                                    microsec: 0,
                                    offset: None,
                                },
                            ),
                        ),
                        p1 + 1,
                    )
                } else {
                    (
                        Err(ErrSpec::ExpectedToken("am/pm"@, toks[p1].start, toks[p1].end)),
                        p1 + 1,
                    )
                }
            } else if 0 <= p1 < toks.len() {
                (
                    Err(
                        ErrSpec::ExpectedToken(
                            "am/pm, ':' or '.'"@,
                            toks[p1].start,
                            toks[p1].end,
                        ),
                    ),
                    p1 + 1,
                )
            } else {
                (Err(ErrSpec::EndOfText("am/pm, ':' or '.'"@)), p1)
            }
        } else {
            (Err(ErrSpec::ExpectedToken("number"@, toks[p0].start, toks[p0].end)), p0 + 1)
        }
    }
}

/// The whole grammar: the date phrase, then the time phrase over the
/// remaining tokens, threading the pending-hour carry between the two.
pub open spec fn sp_parse(
    toks: Seq<TokM>,
    pos: int,
    maybe_time: Option<(u32, TimeKind)>,
    dialect: Dialect,
) -> Result<DateTimeSpec, ErrSpec> {
    let (rd, p1, set) = sp_parse_date(toks, pos, dialect);
    match rd {
        Err(e) => Err(e),
        Ok(date) => {
            let mt = if set is Some {
                set
            } else {
                maybe_time
            };
            let (rt, p2) = sp_parse_time(toks, p1, mt);
            match rt {
                Err(e) => Err(e),
                Ok(time) => Ok(DateTimeSpec { date, time }),
            }
        },
    }
}

/// What parsing the given text yields: the token sequence of the lexer, run
/// through the grammar.
pub open spec fn parse_spec(s: Seq<char>, dialect: Dialect) -> Result<DateTimeSpec, ErrSpec> {
    sp_parse(lex_spec(s), 0, None, dialect)
}

// ---------------------------------------------------------------------------
// Executable parser
// ---------------------------------------------------------------------------

fn chars_eq_str(a: &Vec<char>, b: &str) -> (r: bool)
    ensures
        r == (a@ == b@),
{
    let n = b.unicode_len();
    if a.len() != n {
        return false;
    }
    let mut i: usize = 0;
    while i < n
        invariant
            i <= n,
            n == b@.len(),
            a@.len() == n,
            forall|j: int| 0 <= j < i ==> a@[j] == b@[j],
        decreases n - i,
    {
        if a[i] != b.get_char(i) {
            return false;
        }
        i = i + 1;
    }
    proof {
        assert(a@ =~= b@);
    }
    true
}

fn eq_ic_str(a: &Vec<char>, b: &str) -> (r: bool)
    ensures
        r == eq_ic(a@, b@),
{
    let n = b.unicode_len();
    if a.len() != n {
        return false;
    }
    let mut i: usize = 0;
    while i < n
        invariant
            i <= n,
            n == b@.len(),
            a@.len() == n,
            forall|j: int| 0 <= j < i ==> lc(#[trigger] a@[j]) == lc(b@[j]),
        decreases n - i,
    {
        if crate::types::lc_exec(a[i]) != crate::types::lc_exec(b.get_char(i)) {
            return false;
        }
        i = i + 1;
    }
    true
}

/// The stateful parser: the token array, an explicit cursor, and the
/// pending hour carried from the date phrase into the time phrase.
pub struct DateParser {
    toks: Vec<Tok>,
    pos: usize,
    maybe_time: Option<(u32, TimeKind)>,
}

impl DateParser {
    /// The token sequence being parsed.
    pub closed spec fn toks_m(&self) -> Seq<TokM> {
        toks_model(self.toks@)
    }

    /// The cursor position.
    pub closed spec fn pos_m(&self) -> int {
        self.pos as int
    }

    /// The pending hour carried between the two phrases.
    pub closed spec fn pending_m(&self) -> Option<(u32, TimeKind)> {
        self.maybe_time
    }

    /// Number tokens and any pending hour are at most four digits, as the
    /// lexer guarantees.
    pub closed spec fn wf(&self) -> bool {
        &&& wf_toks(self.toks_m())
        &&& match self.maybe_time {
            Some((h, _)) => h < 10000,
            None => true,
        }
    }

    /// Tokenizes the text and positions the cursor at the start.
    pub fn new(text: &str) -> (p: DateParser)
        ensures
            p.toks_m() == lex_spec(text@),
            p.pos_m() == 0,
            p.pending_m() is None,
            p.wf(),
    {
        let toks = lex(text);
        proof {
            lemma_lex_wf(text@, 0);
        }
        DateParser { toks, pos: 0, maybe_time: None }
    }

    fn next_num(&mut self) -> (r: DateResult<u32>)
        ensures
            ({
                let (rs, p2) = sp_next_num(old(self).toks_m(), old(self).pos_m());
                &&& final(self).toks == old(self).toks
                &&& final(self).maybe_time == old(self).maybe_time
                &&& final(self).pos as int == p2
                &&& res_model(r, rs)
            }),
    {
        if self.pos < self.toks.len() {
            let start = self.toks[self.pos].start;
            let end = self.toks[self.pos].end;
            let r = match &self.toks[self.pos].kind {
                TokKind::Number(n) => Ok(*n),
                _ => Err(DateError::ExpectedToken("number", Span { start, end })),
            };
            self.pos = self.pos + 1;
            r
        } else {
            Err(DateError::EndOfText("number"))
        }
    }

    fn iso_date(&mut self, year: i32) -> (r: DateResult<DateSpec>)
        ensures
            ({
                let (rs, p2) = sp_iso_date(old(self).toks_m(), old(self).pos_m(), year);
                &&& final(self).toks == old(self).toks
                &&& final(self).maybe_time == old(self).maybe_time
                &&& final(self).pos as int == p2
                &&& res_model(r, rs)
            }),
    {
        let month = match self.next_num() {
            Ok(m) => m,
            Err(e) => {
                return Err(e);
            },
        };
        if self.pos < self.toks.len() {
            let start = self.toks[self.pos].start;
            let end = self.toks[self.pos].end;
            let is_dash = matches!(self.toks[self.pos].kind, TokKind::Dash);
            self.pos = self.pos + 1;
            if !is_dash {
                return Err(DateError::ExpectedToken("'-'", Span { start, end }));
            }
        } else {
            return Err(DateError::EndOfText("'-'"));
        }
        let day = match self.next_num() {
            Ok(d) => d,
            Err(e) => {
                return Err(e);
            },
        };
        Ok(DateSpec::Absolute(AbsDate { year, month, day }))
    }

    fn informal_date(&mut self, day_or_month: u32, dialect: Dialect, direct: Direction) -> (r:
        DateResult<DateSpec>)
        ensures
            ({
                let (rs, p2) = sp_informal_date(
                    old(self).toks_m(),
                    old(self).pos_m(),
                    day_or_month,
                    dialect,
                    direct,
                );
                &&& final(self).toks == old(self).toks
                &&& final(self).maybe_time == old(self).maybe_time
                &&& final(self).pos as int == p2
                &&& res_model(r, rs)
            }),
    {
        let month_or_day = match self.next_num() {
            Ok(m) => m,
            Err(e) => {
                return Err(e);
            },
        };
        let (day, month) = if matches!(dialect, Dialect::Us) {
            (month_or_day, day_or_month)
        } else {
            (day_or_month, month_or_day)
        };
        if self.pos < self.toks.len() && matches!(self.toks[self.pos].kind, TokKind::Slash) {
            self.pos = self.pos + 1;
            let y = match self.next_num() {
                Ok(y) => y,
                Err(e) => {
                    return Err(e);
                },
            };
            // two-digit years pivot between 1941 and 2040
            let yi = y as i32;
            let year = if 0 <= yi && yi <= 40 {
                2000 + yi
            } else if 41 <= yi && yi <= 99 {
                1900 + yi
            } else {
                yi
            };
            Ok(DateSpec::Absolute(AbsDate { year, month, day }))
        } else {
            // backtrack: the token stays for the time phrase
            Ok(DateSpec::FromName(ByName::DayMonth { day, month }, direct))
        }
    }

    fn month_ident(&mut self, month: u32, direct: Direction) -> (r: DateResult<Option<DateSpec>>)
        ensures
            ({
                let (rs, p2, set) = sp_month_ident(
                    old(self).toks_m(),
                    old(self).pos_m(),
                    month,
                    direct,
                );
                &&& final(self).toks == old(self).toks
                &&& final(self).maybe_time == old(self).maybe_time
                &&& final(self).pos as int == p2
                &&& set is None
                &&& res_model(r, rs)
            }),
    {
        if self.pos < self.toks.len() && matches!(self.toks[self.pos].kind, TokKind::Number(_)) {
            let day = match &self.toks[self.pos].kind {
                TokKind::Number(x) => *x,
                _ => {
                    proof {
                        assert(false);
                    }
                    0
                },
            };
            if self.pos + 1 < self.toks.len() && matches!(
                self.toks[self.pos + 1].kind,
                TokKind::Comma,
            ) {
                // comma found, expect a year
                self.pos = self.pos + 2;
                let y = match self.next_num() {
                    Ok(y) => y,
                    Err(e) => {
                        return Err(e);
                    },
                };
                Ok(Some(DateSpec::Absolute(AbsDate { year: y as i32, month, day })))
            } else {
                // no comma: leave the cursor after the day so a time phrase
                // can still claim it
                self.pos = self.pos + 1;
                Ok(Some(DateSpec::FromName(ByName::DayMonth { day, month }, direct)))
            }
        } else if self.pos < self.toks.len() {
            self.pos = self.pos + 1;
            Ok(Some(DateSpec::FromName(ByName::MonthName(month), direct)))
        } else {
            Ok(Some(DateSpec::FromName(ByName::MonthName(month), direct)))
        }
    }

    fn number(&mut self, n: u32, dialect: Dialect, sign: bool, direct: Option<Direction>) -> (r:
        DateResult<Option<DateSpec>>)
        requires
            old(self).wf(),
            n < 10000,
        ensures
            ({
                let (rs, p2, set) = sp_number(
                    old(self).toks_m(),
                    old(self).pos_m(),
                    n,
                    dialect,
                    sign,
                    direct,
                );
                &&& final(self).toks == old(self).toks
                &&& final(self).pos as int == p2
                &&& final(self).maybe_time == (if set is Some {
                    set
                } else {
                    old(self).maybe_time
                })
                &&& final(self).wf()
                &&& res_model(r, rs)
            }),
    {
        if self.pos >= self.toks.len() {
            if sign {
                return Err(DateError::EndOfText("duration"));
            }
            if direct.is_some() {
                return Err(DateError::EndOfText("day or month name"));
            }
            return Ok(Some(DateSpec::Absolute(AbsDate { year: n as i32, month: 1, day: 1 })));
        }
        let tpos = self.pos;
        let start = self.toks[tpos].start;
        let end = self.toks[tpos].end;
        if matches!(
            self.toks[tpos].kind,
            TokKind::Comma | TokKind::Plus | TokKind::Number(_) | TokKind::Bad,
        ) {
            self.pos = tpos + 1;
            return Err(DateError::ExpectedToken("date", Span { start, end }));
        }
        if matches!(self.toks[tpos].kind, TokKind::Colon | TokKind::Dot | TokKind::Dash)
            && direct.is_some() {
            self.pos = tpos + 1;
            return Err(DateError::EndOfText("day or month name"));
        }
        if matches!(self.toks[tpos].kind, TokKind::Ident(_)) {
            let direct1 = match direct {
                Some(d) => d,
                None => Direction::Here,
            };
            let (mn, tu, am, pm) = match &self.toks[tpos].kind {
                TokKind::Ident(v) => (
                    month_name(v),
                    time_unit(v),
                    eq_ic_str(v, "am"),
                    eq_ic_str(v, "pm"),
                ),
                _ => {
                    proof {
                        assert(false);
                    }
                    (None, None, false, false)
                },
            };
            if let Some(month) = mn {
                if tpos + 1 < self.toks.len() && matches!(
                    self.toks[tpos + 1].kind,
                    TokKind::Number(_),
                ) {
                    // 4 July 2017
                    let y = match &self.toks[tpos + 1].kind {
                        TokKind::Number(x) => *x,
                        _ => {
                            proof {
                                assert(false);
                            }
                            0
                        },
                    };
                    self.pos = tpos + 2;
                    Ok(Some(DateSpec::Absolute(AbsDate { year: y as i32, month, day: n })))
                } else if tpos + 1 < self.toks.len() {
                    // 4 July
                    self.pos = tpos + 2;
                    Ok(Some(DateSpec::FromName(ByName::DayMonth { day: n, month }, direct1)))
                } else {
                    self.pos = tpos + 1;
                    Ok(Some(DateSpec::FromName(ByName::DayMonth { day: n, month }, direct1)))
                }
            } else if let Some(u) = tu {
                // '2 days'
                let ni = n as i32;
                proof {
                    let uv = iv_val(u);
                    assert(uv == 1 || uv == 60 || uv == 3600 || uv == 7 || uv == 12);
                    assert(-0x8000_0000 <= uv * (ni as int) <= 0x7fff_ffff)
                        by (nonlinear_arith)
                        requires
                            uv == 1 || uv == 60 || uv == 3600 || uv == 7 || uv == 12,
                            0 <= ni < 10000,
                    ;
                    assert(-0x8000_0000 <= uv * (-(ni as int)) <= 0x7fff_ffff)
                        by (nonlinear_arith)
                        requires
                            uv == 1 || uv == 60 || uv == 3600 || uv == 7 || uv == 12,
                            0 <= ni < 10000,
                    ;
                }
                if sign {
                    self.pos = tpos + 1;
                    Ok(Some(DateSpec::Relative(u.mul(-ni))))
                } else {
                    if tpos + 1 < self.toks.len() && matches!(
                        self.toks[tpos + 1].kind,
                        TokKind::Ident(_),
                    ) {
                        let is_ago = match &self.toks[tpos + 1].kind {
                            TokKind::Ident(v) => chars_eq_str(v, "ago"),
                            _ => {
                                proof {
                                    assert(false);
                                }
                                false
                            },
                        };
                        let s2 = self.toks[tpos + 1].start;
                        let e2 = self.toks[tpos + 1].end;
                        self.pos = tpos + 2;
                        if is_ago {
                            Ok(Some(DateSpec::Relative(u.mul(-ni))))
                        } else {
                            Err(DateError::ExpectedToken("'ago'", Span { start: s2, end: e2 }))
                        }
                    } else if tpos + 1 < self.toks.len() && matches!(
                        self.toks[tpos + 1].kind,
                        TokKind::Number(_),
                    ) {
                        let h = match &self.toks[tpos + 1].kind {
                            TokKind::Number(x) => *x,
                            _ => {
                                proof {
                                    assert(false);
                                }
                                0
                            },
                        };
                        self.pos = tpos + 2;
                        self.maybe_time = Some((h, TimeKind::Unknown));
                        Ok(Some(DateSpec::Relative(u.mul(ni))))
                    } else if tpos + 1 < self.toks.len() {
                        self.pos = tpos + 2;
                        Ok(Some(DateSpec::Relative(u.mul(ni))))
                    } else {
                        self.pos = tpos + 1;
                        Ok(Some(DateSpec::Relative(u.mul(ni))))
                    }
                }
            } else if am {
                self.pos = tpos + 1;
                self.maybe_time = Some((n, TimeKind::Am));
                Ok(None)
            } else if pm {
                self.pos = tpos + 1;
                self.maybe_time = Some((n, TimeKind::Pm));
                Ok(None)
            } else {
                self.pos = tpos + 1;
                Err(DateError::ExpectedToken("month or time unit", Span { start, end }))
            }
        } else if matches!(self.toks[tpos].kind, TokKind::Colon) {
            self.pos = tpos + 1;
            self.maybe_time = Some((n, TimeKind::Formal));
            Ok(None)
        } else if matches!(self.toks[tpos].kind, TokKind::Dot) {
            self.pos = tpos + 1;
            self.maybe_time = Some((n, TimeKind::Informal));
            Ok(None)
        } else if matches!(self.toks[tpos].kind, TokKind::Dash) {
            self.pos = tpos + 1;
            match self.iso_date(n as i32) {
                Ok(ds) => Ok(Some(ds)),
                Err(e) => Err(e),
            }
        } else {
            // Slash
            self.pos = tpos + 1;
            let direct1 = match direct {
                Some(d) => d,
                None => Direction::Here,
            };
            match self.informal_date(n, dialect, direct1) {
                Ok(ds) => Ok(Some(ds)),
                Err(e) => Err(e),
            }
        }
    }

    fn parse_date_tok(&mut self, dialect: Dialect, sign: bool, direct: Option<Direction>) -> (r:
        DateResult<Option<DateSpec>>)
        requires
            old(self).wf(),
        ensures
            ({
                let (rs, p2, set) = sp_parse_date_tok(
                    old(self).toks_m(),
                    old(self).pos_m(),
                    dialect,
                    sign,
                    direct,
                );
                &&& final(self).toks == old(self).toks
                &&& final(self).pos as int == p2
                &&& final(self).maybe_time == (if set is Some {
                    set
                } else {
                    old(self).maybe_time
                })
                &&& final(self).wf()
                &&& res_model(r, rs)
            }),
    {
        if self.pos >= self.toks.len() {
            return Err(DateError::EndOfText("empty date string"));
        }
        let tpos = self.pos;
        let start = self.toks[tpos].start;
        let end = self.toks[tpos].end;
        if matches!(
            self.toks[tpos].kind,
            TokKind::Colon | TokKind::Comma | TokKind::Dash | TokKind::Dot | TokKind::Slash
                | TokKind::Plus | TokKind::Bad,
        ) {
            // none of these characters begin a date or duration
            self.pos = tpos + 1;
            return Err(DateError::MissingDate);
        }
        if matches!(self.toks[tpos].kind, TokKind::Ident(_)) {
            // '-June' doesn't make sense
            if sign {
                self.pos = tpos + 1;
                return Err(DateError::ExpectedToken("number", Span { start, end }));
            }
            let direct1 = match direct {
                Some(d) => d,
                None => Direction::Here,
            };
            let (mn, wd, tu) = match &self.toks[tpos].kind {
                TokKind::Ident(v) => (month_name(v), week_day(v), time_unit(v)),
                _ => {
                    proof {
                        assert(false);
                    }
                    (None, None, None)
                },
            };
            if let Some(month) = mn {
                self.pos = tpos + 1;
                self.month_ident(month, direct1)
            } else if let Some(weekday) = wd {
                self.pos = tpos + 1;
                Ok(Some(DateSpec::FromName(ByName::WeekDay(weekday), direct1)))
            } else if let Some(interval) = tu {
                // 'last year'/'this year'/'next year' as pure words
                self.pos = tpos + 1;
                let scaled = match direct1 {
                    Direction::Last => interval.mul(-1),
                    Direction::Here => interval.mul(0),
                    Direction::Next => interval,
                };
                Ok(Some(DateSpec::Relative(scaled)))
            } else {
                self.pos = tpos + 1;
                Err(DateError::ExpectedToken("unsupported identifier", Span { start, end }))
            }
        } else {
            let n = match &self.toks[tpos].kind {
                TokKind::Number(x) => *x,
                _ => {
                    proof {
                        assert(false);
                    }
                    0
                },
            };
            self.pos = tpos + 1;
            self.number(n, dialect, sign, direct)
        }
    }

    fn parse_date(&mut self, dialect: Dialect) -> (r: DateResult<Option<DateSpec>>)
        requires
            old(self).wf(),
        ensures
            ({
                let (rs, p2, set) = sp_parse_date(old(self).toks_m(), old(self).pos_m(), dialect);
                &&& final(self).toks == old(self).toks
                &&& final(self).pos as int == p2
                &&& final(self).maybe_time == (if set is Some {
                    set
                } else {
                    old(self).maybe_time
                })
                &&& final(self).wf()
                &&& res_model(r, rs)
            }),
    {
        let mut sign = false;
        let mut direct: Option<Direction> = None;
        if self.pos < self.toks.len() && matches!(self.toks[self.pos].kind, TokKind::Dash) {
            sign = true;
            self.pos = self.pos + 1;
        } else if self.pos < self.toks.len() && matches!(
            self.toks[self.pos].kind,
            TokKind::Ident(_),
        ) {
            let mut which: u32 = 0;
            match &self.toks[self.pos].kind {
                TokKind::Ident(v) => {
                    if chars_eq_str(v, "now") || chars_eq_str(v, "today") {
                        which = 1;
                    } else if chars_eq_str(v, "yesterday") {
                        which = 2;
                    } else if chars_eq_str(v, "tomorrow") {
                        which = 3;
                    } else if chars_eq_str(v, "next") {
                        which = 4;
                    } else if chars_eq_str(v, "last") {
                        which = 5;
                    } else if chars_eq_str(v, "this") {
                        which = 6;
                    }
                },
                _ => {
                    proof {
                        assert(false);
                    }
                },
            }
            if which == 1 {
                self.pos = self.pos + 1;
                return Ok(Some(DateSpec::Relative(Interval::Days(0))));
            } else if which == 2 {
                self.pos = self.pos + 1;
                return Ok(Some(DateSpec::Relative(Interval::Days(-1))));
            } else if which == 3 {
                self.pos = self.pos + 1;
                return Ok(Some(DateSpec::Relative(Interval::Days(1))));
            } else if which == 4 {
                self.pos = self.pos + 1;
                direct = Some(Direction::Next);
            } else if which == 5 {
                self.pos = self.pos + 1;
                direct = Some(Direction::Last);
            } else if which == 6 {
                self.pos = self.pos + 1;
                direct = Some(Direction::Here);
            }
        }
        self.parse_date_tok(dialect, sign, direct)
    }

    fn formal_tail(&mut self, hour: u32, min: u32, sec: u32, micros: u32) -> (r: DateResult<
        TimeSpec,
    >)
        requires
            old(self).wf(),
            hour < 10000,
        ensures
            ({
                let (rs, p2) = sp_formal_tail(
                    old(self).toks_m(),
                    old(self).pos_m(),
                    hour,
                    min,
                    sec,
                    micros,
                );
                &&& final(self).toks == old(self).toks
                &&& final(self).maybe_time == old(self).maybe_time
                &&& final(self).pos as int == p2
                &&& res_model(r, rs)
            }),
    {
        if self.pos >= self.toks.len() {
            // no timezone or hour offset needed
            return Ok(TimeSpec::new(hour, min, sec, micros));
        }
        let tpos = self.pos;
        let start = self.toks[tpos].start;
        let end = self.toks[tpos].end;
        if matches!(self.toks[tpos].kind, TokKind::Plus | TokKind::Dash) {
            let sign: i64 = if matches!(self.toks[tpos].kind, TokKind::Dash) {
                -1
            } else {
                1
            };
            self.pos = tpos + 1;
            // after a +/- we expect a numeric offset, either HH:MM or HHMM
            let mut hours = match self.next_num() {
                Ok(h) => h,
                Err(e) => {
                    return Err(e);
                },
            };
            let minutes: u32;
            if self.pos < self.toks.len() && matches!(self.toks[self.pos].kind, TokKind::Colon) {
                self.pos = self.pos + 1;
                minutes = match self.next_num() {
                    Ok(m) => m,
                    Err(e) => {
                        return Err(e);
                    },
                };
            } else {
                // backtrack: hours and minutes are packed in the one number
                minutes = hours % 100;
                hours = hours / 100;
            }
            // hours and minutes offset in seconds
            let res: u32 = 60 * (minutes + 60 * hours);
            let offset = res as i64 * sign;
            Ok(TimeSpec::new(hour, min, sec, micros).with_offset(offset))
        } else if matches!(self.toks[tpos].kind, TokKind::Ident(_)) {
            let (isz, isam, ispm) = match &self.toks[tpos].kind {
                TokKind::Ident(v) => (chars_eq_str(v, "Z"), eq_ic_str(v, "am"), eq_ic_str(v, "pm")),
                _ => {
                    proof {
                        assert(false);
                    }
                    (false, false, false)
                },
            };
            self.pos = tpos + 1;
            if isz {
                // zero-offset timezone
                Ok(TimeSpec::new(hour, min, sec, micros).with_offset(0))
            } else if isam && hour == 12 {
                Ok(TimeSpec::new(0, min, sec, micros))
            } else if isam {
                Ok(TimeSpec::new(hour, min, sec, micros))
            } else if ispm && hour == 12 {
                Ok(TimeSpec::new(12, min, sec, micros))
            } else if ispm {
                Ok(TimeSpec::new(hour + 12, min, sec, micros))
            } else {
                Err(DateError::ExpectedToken("expected Z/am/pm", Span { start, end }))
            }
        } else {
            self.pos = tpos + 1;
            Err(DateError::ExpectedToken("expected timezone", Span { start, end }))
        }
    }

    fn formal_time(&mut self, hour: u32) -> (r: DateResult<TimeSpec>)
        requires
            old(self).wf(),
            hour < 10000,
        ensures
            ({
                let (rs, p2) = sp_formal_time(old(self).toks_m(), old(self).pos_m(), hour);
                &&& final(self).toks == old(self).toks
                &&& final(self).maybe_time == old(self).maybe_time
                &&& final(self).pos as int == p2
                &&& res_model(r, rs)
            }),
    {
        let min = match self.next_num() {
            Ok(m) => m,
            Err(e) => {
                return Err(e);
            },
        };
        // the minute may be followed by seconds, or by nothing formal
        if self.pos < self.toks.len() && matches!(self.toks[self.pos].kind, TokKind::Colon) {
            self.pos = self.pos + 1;
            let sec = match self.next_num() {
                Ok(s) => s,
                Err(e) => {
                    return Err(e);
                },
            };
            if self.pos < self.toks.len() && matches!(self.toks[self.pos].kind, TokKind::Dot) {
                // after a '.' these are subseconds: a decimal fraction of a
                // second, scaled to microseconds by its digit count
                self.pos = self.pos + 1;
                if self.pos >= self.toks.len() {
                    return Err(DateError::EndOfText("number"));
                }
                let fstart = self.toks[self.pos].start;
                let fend = self.toks[self.pos].end;
                let f = match &self.toks[self.pos].kind {
                    TokKind::Number(f) => *f,
                    _ => {
                        self.pos = self.pos + 1;
                        return Err(
                            DateError::ExpectedToken("number", Span { start: fstart, end: fend }),
                        );
                    },
                };
                self.pos = self.pos + 1;
                let k = fend - fstart;
                proof {
                    reveal_with_fuel(pow10, 7);
                }
                let scale: u32 = if k == 1 {
                    100_000
                } else if k == 2 {
                    10_000
                } else if k == 3 {
                    1_000
                } else {
                    100
                };
                let micros = f * scale;
                self.formal_tail(hour, min, sec, micros)
            } else {
                self.formal_tail(hour, min, sec, 0)
            }
        } else if self.pos < self.toks.len() && matches!(
            self.toks[self.pos].kind,
            TokKind::Slash | TokKind::Dot | TokKind::Comma | TokKind::Bad,
        ) {
            // we don't expect any of these after parsing minutes
            let start = self.toks[self.pos].start;
            let end = self.toks[self.pos].end;
            self.pos = self.pos + 1;
            Err(DateError::ExpectedToken("':'", Span { start, end }))
        } else {
            self.formal_tail(hour, min, 0, 0)
        }
    }

    fn informal_time(&mut self, hour: u32) -> (r: DateResult<TimeSpec>)
        requires
            old(self).wf(),
            hour < 10000,
        ensures
            ({
                let (rs, p2) = sp_informal_time(old(self).toks_m(), old(self).pos_m(), hour);
                &&& final(self).toks == old(self).toks
                &&& final(self).maybe_time == old(self).maybe_time
                &&& final(self).pos as int == p2
                &&& res_model(r, rs)
            }),
    {
        let min = match self.next_num() {
            Ok(m) => m,
            Err(e) => {
                return Err(e);
            },
        };
        if self.pos >= self.toks.len() {
            return Ok(TimeSpec::new(hour, min, 0, 0));
        }
        let tpos = self.pos;
        let start = self.toks[tpos].start;
        let end = self.toks[tpos].end;
        let (isam, ispm) = match &self.toks[tpos].kind {
            TokKind::Ident(v) => (eq_ic_str(v, "am"), eq_ic_str(v, "pm")),
            _ => (false, false),
        };
        self.pos = tpos + 1;
        if isam {
            Ok(TimeSpec::new(if hour == 12 {
                0
            } else {
                hour
            }, min, 0, 0))
        } else if ispm {
            Ok(TimeSpec::new(if hour == 12 {
                12
            } else {
                hour + 12
            }, min, 0, 0))
        } else {
            Err(DateError::ExpectedToken("expected am/pm", Span { start, end }))
        }
    }

    /// The time phrase, run after the date phrase over the remaining tokens.
    pub fn parse_time(&mut self) -> (r: DateResult<Option<TimeSpec>>)
        requires
            old(self).wf(),
        ensures
            ({
                let (rs, p2) = sp_parse_time(
                    old(self).toks_m(),
                    old(self).pos_m(),
                    old(self).pending_m(),
                );
                &&& final(self).toks_m() == old(self).toks_m()
                &&& final(self).pending_m() == old(self).pending_m()
                &&& final(self).pos_m() == p2
                &&& final(self).wf()
                &&& res_model(r, rs)
            }),
    {
        if let Some((h, kind)) = self.maybe_time {
            // the date phrase looked ahead and saw an hour followed by some
            // separator
            let ts = match kind {
                TimeKind::Formal => match self.formal_time(h) {
                    Ok(t) => t,
                    Err(e) => {
                        return Err(e);
                    },
                },
                TimeKind::Informal => match self.informal_time(h) {
                    Ok(t) => t,
                    Err(e) => {
                        return Err(e);
                    },
                },
                TimeKind::Am => {
                    if h == 12 {
                        TimeSpec::new(0, 0, 0, 0)
                    } else {
                        TimeSpec::new(h, 0, 0, 0)
                    }
                },
                TimeKind::Pm => {
                    if h == 12 {
                        TimeSpec::new(12, 0, 0, 0)
                    } else {
                        TimeSpec::new(h + 12, 0, 0, 0)
                    }
                },
                TimeKind::Unknown => {
                    if self.pos < self.toks.len() && matches!(
                        self.toks[self.pos].kind,
                        TokKind::Colon,
                    ) {
                        self.pos = self.pos + 1;
                        match self.formal_time(h) {
                            Ok(t) => t,
                            Err(e) => {
                                return Err(e);
                            },
                        }
                    } else if self.pos < self.toks.len() && matches!(
                        self.toks[self.pos].kind,
                        TokKind::Dot,
                    ) {
                        self.pos = self.pos + 1;
                        match self.informal_time(h) {
                            Ok(t) => t,
                            Err(e) => {
                                return Err(e);
                            },
                        }
                    } else if self.pos < self.toks.len() {
                        let start = self.toks[self.pos].start;
                        let end = self.toks[self.pos].end;
                        self.pos = self.pos + 1;
                        return Err(DateError::ExpectedToken(": or .", Span { start, end }));
                    } else {
                        return Err(DateError::EndOfText(": or ."));
                    }
                },
            };
            Ok(Some(ts))
        } else {
            // backtrack unless a 'T' time separator can be consumed
            if self.pos < self.toks.len() {
                let is_t = match &self.toks[self.pos].kind {
                    TokKind::Ident(v) => chars_eq_str(v, "T"),
                    _ => false,
                };
                if is_t {
                    self.pos = self.pos + 1;
                }
            }
            // an hour number must follow; none at all means no time here
            if self.pos >= self.toks.len() {
                return Ok(None);
            }
            let tpos = self.pos;
            let start = self.toks[tpos].start;
            let end = self.toks[tpos].end;
            let hour = match &self.toks[tpos].kind {
                TokKind::Number(x) => *x,
                _ => {
                    self.pos = tpos + 1;
                    return Err(DateError::ExpectedToken("number", Span { start, end }));
                },
            };
            self.pos = tpos + 1;
            if self.pos < self.toks.len() && matches!(self.toks[self.pos].kind, TokKind::Colon) {
                self.pos = self.pos + 1;
                match self.formal_time(hour) {
                    Ok(t) => Ok(Some(t)),
                    Err(e) => Err(e),
                }
            } else if self.pos < self.toks.len() && matches!(
                self.toks[self.pos].kind,
                TokKind::Dot,
            ) {
                self.pos = self.pos + 1;
                match self.informal_time(hour) {
                    Ok(t) => Ok(Some(t)),
                    Err(e) => Err(e),
                }
            } else if self.pos < self.toks.len() && matches!(
                self.toks[self.pos].kind,
                TokKind::Ident(_),
            ) {
                let (isam, ispm) = match &self.toks[self.pos].kind {
                    TokKind::Ident(v) => (eq_ic_str(v, "am"), eq_ic_str(v, "pm")),
                    _ => {
                        proof {
                            assert(false);
                        }
                        (false, false)
                    },
                };
                let s2 = self.toks[self.pos].start;
                let e2 = self.toks[self.pos].end;
                self.pos = self.pos + 1;
                if isam {
                    Ok(Some(TimeSpec::new(hour, 0, 0, 0)))
                } else if ispm {
                    Ok(Some(TimeSpec::new(hour + 12, 0, 0, 0)))
                } else {
                    Err(DateError::ExpectedToken("am/pm", Span { start: s2, end: e2 }))
                }
            } else if self.pos < self.toks.len() {
                let s2 = self.toks[self.pos].start;
                let e2 = self.toks[self.pos].end;
                self.pos = self.pos + 1;
                Err(DateError::ExpectedToken("am/pm, ':' or '.'", Span { start: s2, end: e2 }))
            } else {
                Err(DateError::EndOfText("am/pm, ':' or '.'"))
            }
        }
    }

    /// The whole grammar: date phrase, then time phrase.
    pub fn parse(&mut self, dialect: Dialect) -> (r: DateResult<DateTimeSpec>)
        requires
            old(self).wf(),
        ensures
            res_model(
                r,
                sp_parse(
                    old(self).toks_m(),
                    old(self).pos_m(),
                    old(self).pending_m(),
                    dialect,
                ),
            ),
    {
        let date = match self.parse_date(dialect) {
            Ok(d) => d,
            Err(e) => {
                return Err(e);
            },
        };
        let time = match self.parse_time() {
            Ok(t) => t,
            Err(e) => {
                return Err(e);
            },
        };
        Ok(DateTimeSpec { date, time })
    }
}

} // verus!
