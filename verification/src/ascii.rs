//! The table of the ASCII codes.

use crate::num::{padded_digits, push_padded};
use crate::text::{append, from_chars, to_chars};
use vstd::prelude::*;
use vstd::string::StringExecFns;

verus! {

/// The names of the codes from 0 to 32: the control characters and the
/// space.
pub open spec fn control_names() -> Seq<Seq<char>> {
    seq![
        "NUL"@,
        "SOH"@,
        "STX"@,
        "ETX"@,
        "EOT"@,
        "ENQ"@,
        "ACK"@,
        "BEL"@,
        "BS"@,
        "TAB"@,
        "LF"@,
        "VT"@,
        "FF"@,
        "CR"@,
        "SO"@,
        "SI"@,
        "DLE"@,
        "DC1"@,
        "DC2"@,
        "DC3"@,
        "DC4"@,
        "NAK"@,
        "SYN"@,
        "ETB"@,
        "CAN"@,
        "EM"@,
        "SUB"@,
        "ESC"@,
        "FS"@,
        "GS"@,
        "RS"@,
        "US"@,
        "SPC"@,
    ]
}

/// What the table shows for `code`: its name up to 32, the character itself
/// above.
pub open spec fn label(code: int) -> Seq<char> {
    if code <= 0x20 {
        control_names()[code]
    } else {
        seq![code as u8 as char]
    }
}

/// `s` with spaces after it where it is shorter than `width`.
pub open spec fn left_aligned(s: Seq<char>, width: nat) -> Seq<char> {
    if s.len() < width {
        s + Seq::new((width - s.len()) as nat, |i: int| ' ')
    } else {
        s
    }
}

/// The entry of `code`: `0x` and the code in two hexadecimal digits, a space,
/// the label in three columns, and a space.
pub open spec fn cell(code: int) -> Seq<char> {
    seq!['0', 'x'] + padded_digits(code as nat, 16, 2) + seq![' '] + left_aligned(label(code), 3)
        + seq![' ']
}

/// The entries of the codes from `from` up to `to`, `to` left out. The code
/// 127 has no entry.
pub open spec fn cells(from: int, to: int) -> Seq<char>
    decreases to - from,
{
    if from >= to {
        seq![]
    } else if to - 1 < 0x7f {
        cells(from, to - 1) + cell(to - 1)
    } else {
        cells(from, to - 1)
    }
}

/// The first `count` rows of the table, eight codes to a row, with a line
/// feed between two rows.
pub open spec fn rows(count: nat) -> Seq<char>
    decreases count,
{
    if count == 0 {
        seq![]
    } else if count == 1 {
        cells(0, 8)
    } else {
        rows((count - 1) as nat) + seq!['\n'] + cells(8 * (count - 1), 8 * count as int)
    }
}

/// The table of the 128 codes in 16 rows.
pub open spec fn table() -> Seq<char> {
    rows(16)
}

/// Appends `shown` to `out`, and spaces after it up to `width` columns.
fn push_left_aligned(out: &mut Vec<char>, shown: &Vec<char>, width: usize)
    ensures
        final(out)@ == old(out)@ + left_aligned(shown@, width as nat),
{
    append(out, shown);
    let ghost unpadded = out@;
    let mut column: usize = shown.len();
    while column < width
        invariant
            shown.len() <= column,
            column == shown.len() || column <= width,
            out@ == unpadded + Seq::new((column - shown.len()) as nat, |i: int| ' '),
        decreases width - column,
    {
        out.push(' ');
        column += 1;
    }
}

/// Appends the entry of the code `ord` to `out`.
fn push_cell(out: &mut Vec<char>, names: &Vec<String>, ord: usize)
    requires
        ord < 0x7f,
        names.len() == 33,
        names.deep_view() == control_names(),
    ensures
        final(out)@ == old(out)@ + cell(ord as int),
{
    out.push('0');
    out.push('x');
    push_padded(out, ord as u64, 16, 2);
    out.push(' ');
    let shown: Vec<char> = if ord <= 0x20 {
        to_chars(names[ord].as_str())
    } else {
        vec![ord as u8 as char]
    };
    push_left_aligned(out, &shown, 3);
    out.push(' ');
}

/// Builds the table of the ASCII codes as one text.
pub fn ascii_text() -> (rval: String)
    ensures
        rval@ == table(),
{
    let names = ascii_names();
    let mut out: Vec<char> = Vec::new();
    let mut row: usize = 0;
    while row < 16
        invariant
            row <= 16,
            names.len() == 33,
            names.deep_view() == control_names(),
            out@ == rows(row as nat),
        decreases 16 - row,
    {
        if row > 0 {
            out.push('\n');
        }
        let ghost start = out@;
        let mut off: usize = 0;
        while off < 8
            invariant
                off <= 8,
                row < 16,
                names.len() == 33,
                names.deep_view() == control_names(),
                out@ == start + cells(8 * row, 8 * row + off),
            decreases 8 - off,
        {
            let ord: usize = row * 8 + off;
            if ord < 0x7f {
                push_cell(&mut out, &names, ord);
            }
            off += 1;
        }
        row += 1;
    }
    let rval = from_chars(&out, 0, out.len());
    rval
}

/// The names of the codes from 0 to 32.
pub fn ascii_names() -> (rval: Vec<String>)
    ensures
        rval.deep_view() == control_names(),
        rval.len() == 33,
{
    let mut rval: Vec<String> = Vec::new();
    rval.push(String::from_str("NUL"));
    rval.push(String::from_str("SOH"));
    rval.push(String::from_str("STX"));
    rval.push(String::from_str("ETX"));
    rval.push(String::from_str("EOT"));
    rval.push(String::from_str("ENQ"));
    rval.push(String::from_str("ACK"));
    rval.push(String::from_str("BEL"));
    rval.push(String::from_str("BS"));
    rval.push(String::from_str("TAB"));
    rval.push(String::from_str("LF"));
    rval.push(String::from_str("VT"));
    rval.push(String::from_str("FF"));
    rval.push(String::from_str("CR"));
    rval.push(String::from_str("SO"));
    rval.push(String::from_str("SI"));
    rval.push(String::from_str("DLE"));
    rval.push(String::from_str("DC1"));
    rval.push(String::from_str("DC2"));
    rval.push(String::from_str("DC3"));
    rval.push(String::from_str("DC4"));
    rval.push(String::from_str("NAK"));
    rval.push(String::from_str("SYN"));
    rval.push(String::from_str("ETB"));
    rval.push(String::from_str("CAN"));
    rval.push(String::from_str("EM"));
    rval.push(String::from_str("SUB"));
    rval.push(String::from_str("ESC"));
    rval.push(String::from_str("FS"));
    rval.push(String::from_str("GS"));
    rval.push(String::from_str("RS"));
    rval.push(String::from_str("US"));
    rval.push(String::from_str("SPC"));
    rval
}

} // verus!
