//! Numbers in four notations: a number written in hexadecimal, octal, binary
//! or decimal is shown in all four.

use crate::num::{
    decimal, parse_i64, parse_int, push_digits, push_zero_padded, radix_digits, to_unsigned,
    twos_complement,
};
use crate::text::{from_chars, trim, trimmed};
use crate::{int32_or, str_to_int32};
use vstd::prelude::*;
use vstd::string::StringExecFns;

verus! {

/// Whether `arg`, without the white space around it, starts with `0` and
/// `letter`.
pub open spec fn has_prefix(arg: Seq<char>, letter: char) -> bool {
    let value = trim(arg);
    value.len() >= 2 && value[0] == '0' && value[1] == letter
}

/// Whether the prefix of `arg` can be looked at: `arg` holds a character that
/// is no white space, and a second one where the first is `0`.
pub open spec fn prefix_readable(arg: Seq<char>) -> bool {
    let value = trim(arg);
    value.len() >= 1 && (value[0] == '0' ==> value.len() >= 2)
}

/// Whether `arg`, without the white space around it, is a decimal integer of
/// 32 bits other than -99.
pub open spec fn reads_as_decimal(arg: Seq<char>) -> bool {
    int32_or(trim(arg), -99) != -99
}

/// The number of bytes that `c` takes in UTF-8.
pub open spec fn utf8_width(c: char) -> int {
    let u = c as u32;
    if u < 0x80 {
        1
    } else if u < 0x800 {
        2
    } else if u < 0x10000 {
        3
    } else {
        4
    }
}

/// What follows the first two bytes of `value`, where a character ends
/// there: either two characters of one byte, or one of two bytes.
pub open spec fn past_prefix(value: Seq<char>) -> Option<Seq<char>> {
    if value.len() >= 1 && utf8_width(value[0]) == 2 {
        Some(value.skip(1))
    } else if value.len() >= 2 && utf8_width(value[0]) == 1 && utf8_width(value[1]) == 1 {
        Some(value.skip(2))
    } else {
        None
    }
}

/// The number that `arg` writes in `radix`, if it writes one of 64 bits. The
/// white space around `arg` does not count. In a radix other than 10 the
/// first two bytes are taken for the prefix and passed over, whatever they
/// are.
pub open spec fn refract_value(arg: Seq<char>, radix: int) -> Option<int> {
    let value = trim(arg);
    let digits = if radix != 10 {
        past_prefix(value)
    } else {
        Some(value)
    };
    match digits {
        Some(d) => parse_int(d, radix, i64::MIN as int, i64::MAX as int),
        None => None,
    }
}

/// The number `v` in the four notations: hexadecimal, decimal, octal and
/// binary. A negative number is written with its sign in decimal and as the
/// 64-bit pattern that stands for it in the other three.
pub open spec fn refracted(v: int) -> Seq<char> {
    "0x"@ + radix_digits(twos_complement(v), 16) + " == "@ + decimal(v) + " == 0o"@ + radix_digits(
        twos_complement(v),
        8,
    ) + " == 0b"@ + radix_digits(twos_complement(v), 2)
}

/// The report on an `arg` that is no number in any of the four notations.
pub open spec fn not_valid_line(arg: Seq<char>) -> Seq<char> {
    "'"@ + arg + "' is not a valid hex, octal, binary, or decimal value"@
}

/// The radix in which `arg` is read: by its prefix, or 10 where it has none
/// and reads as decimal.
pub open spec fn radix_of(arg: Seq<char>) -> Option<int> {
    if has_prefix(arg, 'x') {
        Some(16)
    } else if has_prefix(arg, 'o') {
        Some(8)
    } else if has_prefix(arg, 'b') {
        Some(2)
    } else if reads_as_decimal(arg) {
        Some(10)
    } else {
        None
    }
}

/// Whether `arg` can be converted or reported: its prefix can be looked at,
/// and where it has one, a number follows it.
pub open spec fn convertible(arg: Seq<char>) -> bool {
    prefix_readable(arg) && match radix_of(arg) {
        Some(radix) => refract_value(arg, radix) is Some,
        None => true,
    }
}

/// The line that `odx` gives for `arg`.
pub open spec fn odx_line(arg: Seq<char>) -> Seq<char> {
    match radix_of(arg) {
        Some(radix) => refracted(refract_value(arg, radix).unwrap()),
        None => not_valid_line(arg),
    }
}

/// The digits that `refract` reads in `arg`.
fn digits_of(arg: &str, radix: u32) -> (digits: Option<Vec<char>>)
    ensures
        match digits {
            Some(d) => if radix != 10 {
                past_prefix(trim(arg@)) == Some(d@)
            } else {
                d@ == trim(arg@)
            },
            None => radix != 10 && past_prefix(trim(arg@)) is None,
        },
{
    let value = trimmed(arg);
    if radix == 10 {
        return Some(value);
    }
    let from: usize = if value.len() >= 1 && 0x80 <= value[0] as u32 && (value[0] as u32) < 0x800 {
        1
    } else if value.len() >= 2 && (value[0] as u32) < 0x80 && (value[1] as u32) < 0x80 {
        2
    } else {
        return None;
    };
    let mut digits: Vec<char> = Vec::new();
    let mut i: usize = from;
    while i < value.len()
        invariant
            from <= i <= value.len(),
            digits@ == value@.subrange(from as int, i as int),
        decreases value.len() - i,
    {
        digits.push(value[i]);
        i += 1;
    }
    Some(digits)
}

/// The number that `arg` writes in `radix`, if it writes one.
fn read_number(arg: &str, radix: u32) -> (number: Option<i64>)
    requires
        2 <= radix <= 36,
    ensures
        match refract_value(arg@, radix as int) {
            Some(v) => number == Some(v as i64),
            None => number is None,
        },
{
    match digits_of(arg, radix) {
        Some(digits) => parse_i64(&digits, radix),
        None => None,
    }
}

/// Writes `value` in the four notations.
fn write_number(value: i64) -> (line: String)
    ensures
        line@ == refracted(value as int),
{
    let unsigned = to_unsigned(value);
    let mut hex: Vec<char> = Vec::new();
    push_digits(&mut hex, unsigned, 16);
    let mut dec: Vec<char> = Vec::new();
    push_zero_padded(&mut dec, value, 0);
    let mut oct: Vec<char> = Vec::new();
    push_digits(&mut oct, unsigned, 8);
    let mut bin: Vec<char> = Vec::new();
    push_digits(&mut bin, unsigned, 2);
    let mut line = String::from_str("0x");
    line.append(from_chars(&hex, 0, hex.len()).as_str());
    line.append(" == ");
    line.append(from_chars(&dec, 0, dec.len()).as_str());
    line.append(" == 0o");
    line.append(from_chars(&oct, 0, oct.len()).as_str());
    line.append(" == 0b");
    line.append(from_chars(&bin, 0, bin.len()).as_str());
    line
}

/// Reads the number that `arg` writes in `radix`, and writes it in the four
/// notations.
pub fn refract(arg: &str, radix: u32) -> (line: String)
    requires
        2 <= radix <= 36,
        refract_value(arg@, radix as int) is Some,
    ensures
        line@ == refracted(refract_value(arg@, radix as int).unwrap()),
{
    match read_number(arg, radix) {
        Some(value) => write_number(value),
        None => vstd::pervasive::unreached(),
    }
}

/// Whether `arg` starts with `0` and `letter`.
fn starts_with_zero_and(arg: &str, letter: char) -> (b: bool)
    requires
        prefix_readable(arg@),
    ensures
        b == has_prefix(arg@, letter),
{
    let chrs = trimmed(arg);
    chrs[0] == '0' && chrs[1] == letter
}

/// Whether `arg` is written as a hexadecimal number: with `0x` in front.
pub fn is_hex(arg: &str) -> (b: bool)
    requires
        prefix_readable(arg@),
    ensures
        b == has_prefix(arg@, 'x'),
{
    starts_with_zero_and(arg, 'x')
}

/// Whether `arg` is written as an octal number: with `0o` in front.
pub fn is_octal(arg: &str) -> (b: bool)
    requires
        prefix_readable(arg@),
    ensures
        b == has_prefix(arg@, 'o'),
{
    starts_with_zero_and(arg, 'o')
}

/// Whether `arg` is written as a binary number: with `0b` in front.
pub fn is_binary(arg: &str) -> (b: bool)
    requires
        prefix_readable(arg@),
    ensures
        b == has_prefix(arg@, 'b'),
{
    starts_with_zero_and(arg, 'b')
}

/// Whether `arg` is written as a decimal number of 32 bits. The number -99 is
/// not told apart from a text that is no number.
pub fn is_decimal(arg: &str) -> (b: bool)
    ensures
        b == reads_as_decimal(arg@),
{
    let value = trimmed(arg);
    let text = from_chars(&value, 0, value.len());
    assert(value@.subrange(0, value@.len() as int) =~= value@);
    str_to_int32(text.as_str(), -99) != -99
}

/// The radix in which `arg` is read, if any.
fn find_radix(arg: &str) -> (radix: Option<u32>)
    requires
        prefix_readable(arg@),
    ensures
        match radix_of(arg@) {
            Some(r) => radix == Some(r as u32),
            None => radix is None,
        },
{
    if is_hex(arg) {
        Some(16)
    } else if is_octal(arg) {
        Some(8)
    } else if is_binary(arg) {
        Some(2)
    } else if is_decimal(arg) {
        Some(10)
    } else {
        None
    }
}

/// Whether `odx` takes `arg`.
pub fn can_convert(arg: &str) -> (b: bool)
    ensures
        b == convertible(arg@),
{
    let value = trimmed(arg);
    if value.len() == 0 || (value[0] == '0' && value.len() < 2) {
        return false;
    }
    match find_radix(arg) {
        Some(radix) => read_number(arg, radix).is_some(),
        None => true,
    }
}

/// Converts each of `values`: one line for each, in their order. A number is
/// shown in the four notations; a text that is read as none gets a line that
/// says so.
pub fn odx(values: &[&str]) -> (lines: Vec<String>)
    requires
        forall|i: int| 0 <= i < values.len() ==> convertible(#[trigger] values[i]@),
    ensures
        lines.len() == values.len(),
        forall|i: int| 0 <= i < lines.len() ==> (#[trigger] lines[i])@ == odx_line(values[i]@),
{
    let mut lines: Vec<String> = Vec::new();
    let mut i: usize = 0;
    while i < values.len()
        invariant
            i <= values.len(),
            lines.len() == i,
            forall|k: int| 0 <= k < values.len() ==> convertible(#[trigger] values[k]@),
            forall|k: int| 0 <= k < i ==> (#[trigger] lines[k])@ == odx_line(values[k]@),
        decreases values.len() - i,
    {
        let arg = values[i];
        let line = match find_radix(arg) {
            Some(radix) => refract(arg, radix),
            None => {
                let mut line = String::from_str("'");
                line.append(arg);
                line.append("' is not a valid hex, octal, binary, or decimal value");
                line
            },
        };
        lines.push(line);
        i += 1;
    }
    lines
}

} // verus!
