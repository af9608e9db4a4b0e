use fx::num::{digit_of, digit_to_char, parse_i64, push_digits, push_padded, push_zero_padded,
              to_unsigned};

fn chars(s: &str) -> Vec<char> {
    s.chars().collect()
}

fn text(v: &Vec<char>) -> String {
    v.iter().collect()
}

#[test]
fn digits_have_their_values() {
    assert_eq!(digit_of('0'), 0);
    assert_eq!(digit_of('9'), 9);
    assert_eq!(digit_of('a'), 10);
    assert_eq!(digit_of('F'), 15);
    assert_eq!(digit_of('z'), 35);
    assert_eq!(digit_of('Z'), 35);
    assert_eq!(digit_of(' '), 36);
    assert_eq!(digit_of('-'), 36);
    assert_eq!(digit_of('٣'), 36);
    for d in 0..16u64 {
        assert_eq!(digit_to_char(d), char::from_digit(d as u32, 16).unwrap());
    }
}

#[test]
fn parsing_is_the_standard_parsing() {
    for radix in [2u32, 8, 10, 16, 36] {
        for s in ["0", "1", "-1", "+1", "", "-", "+", "10", "ff", "FF", "zz", "7fffffffffffffff",
                  "-8000000000000000", "8000000000000000", "-8000000000000001",
                  "9223372036854775807", "9223372036854775808", "-9223372036854775808",
                  "-9223372036854775809", "1 ", " 1", "1_0", "0x10", "--1", "+-1",
                  "00000000000000000000000000000000000000000000000000000000000000000000001",
                  "1111111111111111111111111111111111111111111111111111111111111111",
                  "111111111111111111111111111111111111111111111111111111111111111"] {
            assert_eq!(parse_i64(&chars(s), radix), i64::from_str_radix(s, radix).ok(),
                       "for {:?} in radix {}", s, radix);
        }
    }
}

#[test]
fn digits_are_written_without_leading_zeros() {
    for (n, radix, expected) in [(0u64, 10u64, "0"), (7, 10, "7"), (10, 10, "10"),
                                 (255, 16, "ff"), (255, 2, "11111111"), (8, 8, "10"),
                                 (u64::MAX, 16, "ffffffffffffffff"),
                                 (u64::MAX, 10, "18446744073709551615")] {
        let mut out = chars("=");
        push_digits(&mut out, n, radix);
        assert_eq!(text(&out), format!("={}", expected));
    }
}

#[test]
fn padding_fills_with_zeros_in_front() {
    let mut out = Vec::new();
    push_padded(&mut out, 7, 16, 2);
    assert_eq!(text(&out), "07");
    push_padded(&mut out, 255, 16, 2);
    assert_eq!(text(&out), "07ff");
    push_padded(&mut out, 4096, 16, 2);
    assert_eq!(text(&out), "07ff1000");
    push_padded(&mut out, 0, 10, 0);
    assert_eq!(text(&out), "07ff10000");
}

#[test]
fn zero_padding_is_that_of_the_standard_format() {
    for n in [0i64, 5, -5, 42, -42, 100, -100, 12345, i64::MAX, i64::MIN] {
        for width in 0..8usize {
            let mut out = Vec::new();
            push_zero_padded(&mut out, n, width);
            assert_eq!(text(&out), format!("{:0width$}", n, width = width),
                       "for {} at width {}", n, width);
        }
    }
}

#[test]
fn negative_numbers_count_down_from_the_top() {
    assert_eq!(to_unsigned(0), 0);
    assert_eq!(to_unsigned(1), 1);
    assert_eq!(to_unsigned(-1), u64::MAX);
    assert_eq!(to_unsigned(i64::MIN), 1u64 << 63);
    assert_eq!(to_unsigned(i64::MAX), (1u64 << 63) - 1);
}
