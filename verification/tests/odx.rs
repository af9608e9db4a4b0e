use fx::odx::{can_convert, is_binary, is_decimal, is_hex, is_octal, odx, refract};

#[test]
fn test_refract() {
    assert_eq!(refract("0b110110", 2),
               "0x36 == 54 == 0o66 == 0b110110");
    assert_eq!(refract("   0b110110", 2),
               "0x36 == 54 == 0o66 == 0b110110");
    assert_eq!(refract("0o110110", 8),
               "0x9048 == 36936 == 0o110110 == 0b1001000001001000");
    assert_eq!(refract("   0o110110", 8),
               "0x9048 == 36936 == 0o110110 == 0b1001000001001000");
    assert_eq!(refract("110110", 10),
               "0x1ae1e == 110110 == 0o327036 == 0b11010111000011110");
    assert_eq!(refract("   110110", 10),
               "0x1ae1e == 110110 == 0o327036 == 0b11010111000011110");
    assert_eq!(refract("0x110110", 16),
               "0x110110 == 1114384 == 0o4200420 == \
               0b100010000000100010000");
    assert_eq!(refract("   0x110110", 16),
               "0x110110 == 1114384 == 0o4200420 == \
               0b100010000000100010000");
}

#[test]
fn test_is_hex() {
    assert!(   is_hex("0x100"));
    assert!(   is_hex("   0x100"));
    assert!(   is_hex("0x100   "));
    assert!( ! is_hex("12345"));
    assert!( ! is_hex("0o12345"));
    assert!( ! is_hex("0b10101010"));
    assert!( ! is_hex("one two three"));
}

#[test]
fn test_is_octal() {
    assert!( ! is_octal("0x100"));
    assert!( ! is_octal("12345"));
    assert!(   is_octal("0o12345"));
    assert!(   is_octal("0o12345    "));
    assert!(   is_octal("    0o12345"));
    assert!( ! is_octal("0b10101010"));
    assert!( ! is_octal("one two three"));
}

#[test]
fn test_is_binary() {
    assert!( ! is_binary("0x100"));
    assert!( ! is_binary("12345"));
    assert!( ! is_binary("0o12345"));
    assert!(   is_binary("0b10101010"));
    assert!(   is_binary("   0b10101010"));
    assert!(   is_binary("0b10101010   "));
    assert!( ! is_binary("one two three"));
}

#[test]
fn test_is_decimal() {
    assert!( ! is_decimal("0x100"));
    assert!(   is_decimal("12345"));
    assert!(   is_decimal("   12345"));
    assert!(   is_decimal("12345   "));
    assert!( ! is_decimal("0o12345"));
    assert!( ! is_decimal("0b10101010"));
    assert!( ! is_decimal("one two three"));
}

#[test]
fn is_decimal_takes_signs_but_not_its_own_marker() {
    assert!(is_decimal("-5"));
    assert!(is_decimal("+5"));
    assert!(!is_decimal("-99"));
    assert!(!is_decimal("2147483648"));
    assert!(!is_decimal(""));
}

#[test]
fn refract_writes_negative_numbers_as_64_bit_patterns() {
    assert_eq!(refract("-1", 10),
               "0xffffffffffffffff == -1 == 0o1777777777777777777777 == \
               0b1111111111111111111111111111111111111111111111111111111111111111");
    assert_eq!(refract("0x-f", 16).split(" == ").nth(1), Some("-15"));
}

#[test]
fn refract_reads_zero_and_the_largest_number() {
    assert_eq!(refract("0", 10), "0x0 == 0 == 0o0 == 0b0");
    assert_eq!(refract("0x7fffffffffffffff", 16).split(" == ").nth(1),
               Some("9223372036854775807"));
    assert_eq!(refract("0xFF", 16), "0xff == 255 == 0o377 == 0b11111111");
}

#[test]
fn odx_converts_by_prefix() {
    assert_eq!(odx(&["0x10", "0o10", "0b10", "10", "ten"]),
               ["0x10 == 16 == 0o20 == 0b10000",
                "0x8 == 8 == 0o10 == 0b1000",
                "0x2 == 2 == 0o2 == 0b10",
                "0xa == 10 == 0o12 == 0b1010",
                "'ten' is not a valid hex, octal, binary, or decimal value"]);
}

#[test]
fn can_convert_tells_what_odx_takes() {
    assert!(can_convert("0x10"));
    assert!(can_convert("17"));
    assert!(can_convert("seventeen"));
    assert!(can_convert("-99"));
    assert!(!can_convert(""));
    assert!(!can_convert("   "));
    assert!(!can_convert("0"));
    assert!(!can_convert("0xZZ"));
    assert!(!can_convert("0x"));
    assert!(!can_convert("0b12"));
    assert!(!can_convert("0o8"));
    assert!(!can_convert("0xffffffffffffffff"));
}
