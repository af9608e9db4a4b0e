//! Commands from a range of numbers: an interval is parsed from text, and
//! each number in it fills the placeholder of one command.

use crate::executor::{started, Executor};
use crate::num::{parse_i64, parse_int, push_zero_padded, zero_padded};
use crate::template::{config_message, validate, validated, ConfigError};
use crate::text::{contains, find, first_match, from_chars, replace_all, replace_chars, to_chars};
use vstd::prelude::*;
use vstd::string::StringExecFns;

verus! {

/// Why a text is no interval.
#[derive(Clone, Copy, Debug, PartialEq, Eq, Structural)]
pub enum ParseError {
    /// The text holds neither `:` nor `..`.
    UnrecognizedSyntax,
    /// One of the two bounds is no integer, is negative, or does not fit in
    /// 32 bits.
    InvalidInteger,
}

/// Why no commands were generated from a range.
#[derive(Clone, Copy, Debug, PartialEq, Eq, Structural)]
pub enum RangeError {
    /// The interval could not be parsed.
    Parse(ParseError),
    /// The template and the placeholder do not go together.
    Config(ConfigError),
}

/// The two halves of an interval: the text before and after the first `:`,
/// or, where there is no `:`, before and after the first `..`.
pub open spec fn range_halves(interval: Seq<char>) -> Option<(Seq<char>, Seq<char>)> {
    if contains(interval, seq![':']) {
        let at = first_match(interval, seq![':']);
        Some((interval.take(at), interval.skip(at + 1)))
    } else if contains(interval, seq!['.', '.']) {
        let at = first_match(interval, seq!['.', '.']);
        Some((interval.take(at), interval.skip(at + 2)))
    } else {
        None
    }
}

/// The bound that `half` writes: a decimal integer, with or without a sign,
/// that is not negative and fits in 32 bits.
pub open spec fn bound_of(half: Seq<char>) -> Option<int> {
    parse_int(half, 10, 0, i32::MAX as int)
}

/// The interval that a text writes: its low bound, which is in the interval,
/// and its high bound, which is not. Nothing asks that the low bound be the
/// smaller one.
pub open spec fn parsed_range(interval: Seq<char>) -> Result<(int, int), ParseError> {
    match range_halves(interval) {
        None => Err(ParseError::UnrecognizedSyntax),
        Some((low, high)) => match (bound_of(low), bound_of(high)) {
            (Some(l), Some(h)) => Ok((l, h)),
            _ => Err(ParseError::InvalidInteger),
        },
    }
}

/// How many numbers lie from `low` up to `high`, `high` left out.
pub open spec fn span(low: int, high: int) -> nat {
    if low < high {
        (high - low) as nat
    } else {
        0
    }
}

/// The commands for the numbers from `low` up to `high`, `high` left out, in
/// rising order: each is the template with the number in the place of the
/// placeholder, written in decimal and filled with zeros to `zpad` columns.
pub open spec fn range_commands(
    template: Seq<char>,
    placeholder: Seq<char>,
    zpad: nat,
    low: int,
    high: int,
) -> Seq<Seq<char>> {
    Seq::new(
        span(low, high),
        |i: int| replace_all(template, placeholder, zero_padded(low + i, zpad)),
    )
}

/// The text of the report on an interval that could not be parsed.
pub open spec fn parse_message(interval: Seq<char>) -> Seq<char> {
    "Attempt to parse '"@ + interval + "' failed"@
}

impl ParseError {
    /// The one-line report on this error for the user.
    pub fn message(&self, interval: &str) -> (line: String)
        ensures
            line@ == parse_message(interval@),
    {
        let mut line = String::from_str("Attempt to parse '");
        line.append(interval);
        line.append("' failed");
        line
    }
}

impl RangeError {
    /// The one-line report on this error for the user.
    pub fn message(&self, template: &str, placeholder: &str, interval: &str) -> (line: String)
        ensures
            line@ == match *self {
                RangeError::Parse(_) => parse_message(interval@),
                RangeError::Config(_) => config_message(template@, placeholder@),
            },
    {
        match self {
            RangeError::Parse(e) => e.message(interval),
            RangeError::Config(e) => e.message(template, placeholder),
        }
    }
}

/// The bound that the characters `half[from..to]` write.
fn parse_bound(half: &Vec<char>, from: usize, to: usize) -> (bound: Option<i32>)
    requires
        from <= to <= half.len(),
    ensures
        match bound_of(half@.subrange(from as int, to as int)) {
            Some(v) => bound == Some(v as i32),
            None => bound is None,
        },
{
    let mut digits: Vec<char> = Vec::new();
    let mut i: usize = from;
    while i < to
        invariant
            from <= i <= to <= half.len(),
            digits@ == half@.subrange(from as int, i as int),
        decreases to - i,
    {
        digits.push(half[i]);
        i += 1;
    }
    match parse_i64(&digits, 10) {
        Some(v) => if 0 <= v && v <= i32::MAX as i64 {
            Some(v as i32)
        } else {
            None
        },
        None => None,
    }
}

/// Parses an interval: `<low>:<high>` or `<low>..<high>`. A `:` decides
/// where the text holds both. The text is split at the first separator only,
/// so a second one makes the high bound invalid.
pub fn get_low_high(lowhigh: &str) -> (parsed: Result<(i32, i32), ParseError>)
    ensures
        match parsed_range(lowhigh@) {
            Ok((low, high)) => parsed == Ok::<(i32, i32), ParseError>((low as i32, high as i32)),
            Err(e) => parsed == Err::<(i32, i32), ParseError>(e),
        },
{
    let chars = to_chars(lowhigh);
    let colon: Vec<char> = vec![':'];
    let dots: Vec<char> = vec!['.', '.'];
    assert(colon@ =~= seq![':']);
    assert(dots@ =~= seq!['.', '.']);
    let (at, width): (usize, usize) = match find(&chars, &colon) {
        Some(at) => (at, 1),
        None => match find(&chars, &dots) {
            Some(at) => (at, 2),
            None => {
                return Err(ParseError::UnrecognizedSyntax);
            },
        },
    };
    let low = parse_bound(&chars, 0, at);
    let high = parse_bound(&chars, at + width, chars.len());
    match (low, high) {
        (Some(l), Some(h)) => Ok((l, h)),
        _ => Err(ParseError::InvalidInteger),
    }
}

/// Generates the commands for the numbers from `low` up to `high`, `high`
/// left out: `cmd` with each number in the place of `replstr`. With `zpad`
/// above 0 a number is filled with zeros to that many columns; the zeros
/// follow the sign of a negative number, and the sign counts as a column.
/// A number that is wider is never cut. No number at all, where `low` is not
/// below `high`, gives no command.
pub fn _rnglist(replstr: &str, zpad: usize, cmd: &str, low: i32, high: i32) -> (list: Vec<String>)
    ensures
        list.deep_view() == range_commands(
            cmd@,
            replstr@,
            zpad as nat,
            low as int,
            high as int,
        ),
        list.len() == span(low as int, high as int),
        high <= low ==> list.len() == 0,
{
    let template = to_chars(cmd);
    let placeholder = to_chars(replstr);
    let mut list: Vec<String> = Vec::new();
    let mut num: i32 = low;
    while num < high
        invariant
            low <= num <= high || (num == low && high < low),
            template@ == cmd@,
            placeholder@ == replstr@,
            list.len() == span(low as int, num as int),
            forall|i: int|
                0 <= i < list.len() ==> (#[trigger] list[i])@ == replace_all(
                    cmd@,
                    replstr@,
                    zero_padded(low + i, zpad as nat),
                ),
        decreases high - num,
    {
        let mut number: Vec<char> = Vec::new();
        push_zero_padded(&mut number, num as i64, zpad);
        let full = replace_chars(&template, &placeholder, &number);
        let line = from_chars(&full, 0, full.len());
        list.push(line);
        num += 1;
    }
    list
}

/// Prepares the run of `rcmd` over the numbers of the interval `lohigh`.
/// The interval is parsed first, then the template is checked; the first
/// failure is returned and nothing is generated.
pub fn range(
    dryrun: bool,
    verbose: bool,
    replstr: &str,
    zpad: usize,
    rcmd: &str,
    lohigh: &str,
) -> (run: Result<Executor, RangeError>)
    ensures
        match parsed_range(lohigh@) {
            Err(e) => run matches Err(RangeError::Parse(err)) && err == e,
            Ok((low, high)) => match validated(rcmd@, replstr@) {
                Err(e) => run matches Err(RangeError::Config(err)) && err == e,
                Ok(_) => run matches Ok(executor) && executor@ == started(
                    range_commands(rcmd@, replstr@, zpad as nat, low, high),
                    dryrun,
                    verbose,
                ),
            },
        },
{
    let (low, high) = match get_low_high(lohigh) {
        Ok(bounds) => bounds,
        Err(e) => {
            return Err(RangeError::Parse(e));
        },
    };
    match validate(rcmd, replstr) {
        Err(e) => Err(RangeError::Config(e)),
        Ok(_) => Ok(Executor::new(_rnglist(replstr, zpad, rcmd, low, high), dryrun, verbose)),
    }
}

} // verus!
