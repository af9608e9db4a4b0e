//! Reading and writing integers as text in a given radix.

use vstd::prelude::*;

verus! {

/// The value of `c` as a digit: `0`-`9`, then letters of either case from 10
/// on; 36 for any other character.
pub open spec fn char_value(c: char) -> int {
    let u = c as u32;
    if 0x30 <= u <= 0x39 {
        u - 0x30
    } else if 0x61 <= u <= 0x7a {
        u - 0x61 + 10
    } else if 0x41 <= u <= 0x5a {
        u - 0x41 + 10
    } else {
        36
    }
}

/// Whether `c` is a digit in `radix`.
pub open spec fn is_digit(c: char, radix: int) -> bool {
    char_value(c) < radix
}

/// Whether `s` is made of digits in `radix` only.
pub open spec fn all_digits(s: Seq<char>, radix: int) -> bool {
    forall|i: int| 0 <= i < s.len() ==> is_digit(#[trigger] s[i], radix)
}

/// The number that the digits `s` write in `radix`, most significant first.
pub open spec fn numeral_value(s: Seq<char>, radix: int) -> int
    decreases s.len(),
{
    if s.len() == 0 {
        0
    } else {
        numeral_value(s.drop_last(), radix) * radix + char_value(s.last())
    }
}

/// `s` without a leading sign.
pub open spec fn unsigned_part(s: Seq<char>) -> Seq<char> {
    if s.len() > 0 && (s[0] == '-' || s[0] == '+') {
        s.skip(1)
    } else {
        s
    }
}

/// The integer that `s` writes in `radix`, if it writes one between `min`
/// and `max`: an optional `+` or `-`, then at least one digit, and nothing
/// else.
pub open spec fn parse_int(s: Seq<char>, radix: int, min: int, max: int) -> Option<int> {
    let body = unsigned_part(s);
    let magnitude = numeral_value(body, radix);
    let value = if s.len() > 0 && s[0] == '-' {
        -magnitude
    } else {
        magnitude
    };
    if body.len() > 0 && all_digits(body, radix) && min <= value <= max {
        Some(value)
    } else {
        None
    }
}

/// The character that writes the digit `d`, in lower case.
pub open spec fn digit_char(d: int) -> char {
    if d == 0 {
        '0'
    } else if d == 1 {
        '1'
    } else if d == 2 {
        '2'
    } else if d == 3 {
        '3'
    } else if d == 4 {
        '4'
    } else if d == 5 {
        '5'
    } else if d == 6 {
        '6'
    } else if d == 7 {
        '7'
    } else if d == 8 {
        '8'
    } else if d == 9 {
        '9'
    } else if d == 10 {
        'a'
    } else if d == 11 {
        'b'
    } else if d == 12 {
        'c'
    } else if d == 13 {
        'd'
    } else if d == 14 {
        'e'
    } else {
        'f'
    }
}

/// The digits of `n` in `radix`, most significant first, without leading
/// zeros; `0` is written as one digit.
pub open spec fn radix_digits(n: nat, radix: nat) -> Seq<char>
    decreases n,
    via radix_digits_decreases
{
    if radix < 2 || n < radix {
        seq![digit_char(n as int)]
    } else {
        radix_digits(n / radix, radix).push(digit_char((n % radix) as int))
    }
}

/// Dividing by a radix of 2 or more makes a number that is no less than the
/// radix smaller.
#[via_fn]
proof fn radix_digits_decreases(n: nat, radix: nat) {
    if radix >= 2 && n >= radix {
        assert(n / radix < n) by (nonlinear_arith)
            requires
                radix >= 2,
                n >= radix,
        ;
    }
}

/// `k` zeros.
pub open spec fn zeros(k: nat) -> Seq<char> {
    Seq::new(k, |i: int| '0')
}

/// The digits of `n` in `radix`, with zeros in front where they are fewer
/// than `width`.
pub open spec fn padded_digits(n: nat, radix: nat, width: nat) -> Seq<char> {
    let digits = radix_digits(n, radix);
    let fill = if digits.len() < width {
        (width - digits.len()) as nat
    } else {
        0
    };
    zeros(fill) + digits
}

/// `n` in decimal, with a `-` in front where it is negative.
pub open spec fn decimal(n: int) -> Seq<char> {
    zero_padded(n, 0)
}

/// `n` in decimal, at least `width` characters wide. Zeros fill the missing
/// width; they stand after the sign, which counts towards the width. A number
/// that is wider than `width` is written in full.
pub open spec fn zero_padded(n: int, width: nat) -> Seq<char> {
    if n < 0 {
        seq!['-'] + padded_digits(
            (-n) as nat,
            10,
            if width > 0 {
                (width - 1) as nat
            } else {
                0
            },
        )
    } else {
        padded_digits(n as nat, 10, width)
    }
}

/// `v` read as an unsigned 64-bit number: negative numbers count down from
/// 2^64.
pub open spec fn twos_complement(v: int) -> nat {
    if v < 0 {
        (v + 0x1_0000_0000_0000_0000) as nat
    } else {
        v as nat
    }
}

/// The numeral of a prefix is no larger than that of the whole.
pub proof fn lemma_numeral_prefix(s: Seq<char>, radix: int, k: int)
    requires
        radix >= 1,
        0 <= k <= s.len(),
    ensures
        0 <= numeral_value(s.take(k), radix) <= numeral_value(s, radix),
    decreases s.len() - k,
{
    lemma_numeral_nonnegative(s.take(k), radix);
    if k == s.len() {
        assert(s.take(k) =~= s);
    } else {
        lemma_numeral_prefix(s, radix, k + 1);
        let longer = s.take(k + 1);
        assert(longer.drop_last() =~= s.take(k));
        assert(numeral_value(s.take(k), radix) * radix >= numeral_value(s.take(k), radix))
            by (nonlinear_arith)
            requires
                numeral_value(s.take(k), radix) >= 0,
                radix >= 1,
        ;
    }
}

/// A numeral is never negative.
pub proof fn lemma_numeral_nonnegative(s: Seq<char>, radix: int)
    requires
        radix >= 1,
    ensures
        numeral_value(s, radix) >= 0,
    decreases s.len(),
{
    if s.len() > 0 {
        lemma_numeral_nonnegative(s.drop_last(), radix);
        assert(numeral_value(s.drop_last(), radix) * radix >= 0) by (nonlinear_arith)
            requires
                numeral_value(s.drop_last(), radix) >= 0,
                radix >= 1,
        ;
    }
}

/// The value of `c` as a digit; 36 where it is none.
pub fn digit_of(c: char) -> (v: u32)
    ensures
        v == char_value(c),
        v <= 36,
{
    let u: u32 = c as u32;
    if 0x30 <= u && u <= 0x39 {
        u - 0x30
    } else if 0x61 <= u && u <= 0x7a {
        u - 0x61 + 10
    } else if 0x41 <= u && u <= 0x5a {
        u - 0x41 + 10
    } else {
        36
    }
}

/// The 64-bit signed integer that `s` writes in `radix`, if it writes one.
pub fn parse_i64(s: &Vec<char>, radix: u32) -> (parsed: Option<i64>)
    requires
        2 <= radix <= 36,
    ensures
        match parse_int(s@, radix as int, i64::MIN as int, i64::MAX as int) {
            Some(v) => parsed == Some(v as i64),
            None => parsed is None,
        },
{
    let n = s.len();
    if n == 0 {
        return None;
    }
    let negative = s[0] == '-';
    let start: usize = if s[0] == '-' || s[0] == '+' {
        1
    } else {
        0
    };
    let ghost body = unsigned_part(s@);
    if start == n {
        return None;
    }
    let limit: u128 = if negative {
        0x8000_0000_0000_0000
    } else {
        0x7fff_ffff_ffff_ffff
    };
    let mut acc: u128 = 0;
    let mut i: usize = start;
    while i < n
        invariant
            start <= i <= n,
            n == s.len(),
            2 <= radix <= 36,
            n > 0,
            negative == (s@[0] == '-'),
            limit == if negative {
                0x8000_0000_0000_0000u128
            } else {
                0x7fff_ffff_ffff_ffffu128
            },
            body == unsigned_part(s@),
            body == s@.skip(start as int),
            acc == numeral_value(body.take(i - start), radix as int),
            acc <= limit,
            all_digits(body.take(i - start), radix as int),
        decreases n - i,
    {
        let d = digit_of(s[i]);
        let ghost k = i - start;
        if d >= radix {
            assert(!is_digit(body[k], radix as int));
            return None;
        }
        assert(body.take(k + 1).drop_last() =~= body.take(k));
        assert(acc * radix <= 0x8000_0000_0000_0000 * 36) by (nonlinear_arith)
            requires
                acc <= 0x8000_0000_0000_0000,
                radix <= 36,
        ;
        let next: u128 = acc * (radix as u128) + (d as u128);
        if next > limit {
            proof {
                if all_digits(body, radix as int) {
                    lemma_numeral_prefix(body, radix as int, k + 1);
                }
            }
            return None;
        }
        acc = next;
        i += 1;
    }
    assert(body.take(i - start) =~= body);
    if negative {
        Some((0 - acc as i128) as i64)
    } else {
        Some(acc as i64)
    }
}

/// The character that writes the digit `d`.
pub fn digit_to_char(d: u64) -> (c: char)
    requires
        d < 16,
    ensures
        c == digit_char(d as int),
{
    if d == 0 {
        '0'
    } else if d == 1 {
        '1'
    } else if d == 2 {
        '2'
    } else if d == 3 {
        '3'
    } else if d == 4 {
        '4'
    } else if d == 5 {
        '5'
    } else if d == 6 {
        '6'
    } else if d == 7 {
        '7'
    } else if d == 8 {
        '8'
    } else if d == 9 {
        '9'
    } else if d == 10 {
        'a'
    } else if d == 11 {
        'b'
    } else if d == 12 {
        'c'
    } else if d == 13 {
        'd'
    } else if d == 14 {
        'e'
    } else {
        'f'
    }
}

/// Appends the digits of `n` in `radix` to `out`.
pub fn push_digits(out: &mut Vec<char>, n: u64, radix: u64)
    requires
        2 <= radix <= 16,
    ensures
        final(out)@ == old(out)@ + radix_digits(n as nat, radix as nat),
    decreases n,
{
    if n < radix {
        out.push(digit_to_char(n));
    } else {
        assert(n / radix < n) by (nonlinear_arith)
            requires
                radix >= 2,
                n >= radix,
        ;
        push_digits(out, n / radix, radix);
        out.push(digit_to_char(n % radix));
    }
}

/// Appends to `out` the digits of `n` in `radix`, with zeros in front where
/// they are fewer than `width`.
pub fn push_padded(out: &mut Vec<char>, n: u64, radix: u64, width: usize)
    requires
        2 <= radix <= 16,
    ensures
        final(out)@ == old(out)@ + padded_digits(n as nat, radix as nat, width as nat),
{
    let mut digits: Vec<char> = Vec::new();
    push_digits(&mut digits, n, radix);
    let fill: usize = if digits.len() < width {
        width - digits.len()
    } else {
        0
    };
    let mut k: usize = 0;
    while k < fill
        invariant
            k <= fill,
            out@ == old(out)@ + zeros(k as nat),
        decreases fill - k,
    {
        out.push('0');
        k += 1;
    }
    crate::text::append(out, &digits);
}

/// Appends to `out` the number `n` in decimal, at least `width` characters
/// wide.
pub fn push_zero_padded(out: &mut Vec<char>, n: i64, width: usize)
    ensures
        final(out)@ == old(out)@ + zero_padded(n as int, width as nat),
{
    if n < 0 {
        out.push('-');
        let magnitude: u64 = (0 - n as i128) as u64;
        let rest: usize = if width > 0 {
            width - 1
        } else {
            0
        };
        push_padded(out, magnitude, 10, rest);
    } else {
        push_padded(out, n as u64, 10, width);
    }
}

/// `v` read as an unsigned 64-bit number.
pub fn to_unsigned(v: i64) -> (u: u64)
    ensures
        u == twos_complement(v as int),
{
    if v < 0 {
        ((v as i128) + 0x1_0000_0000_0000_0000) as u64
    } else {
        v as u64
    }
}

} // verus!
