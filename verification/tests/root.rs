use fx::{_get_cargo_version, str_to_int32, version};

#[test]
fn test_cargo_version() {
    let manifest = "[package]\nname = \"fx\"\nversion = \"0.0.6\"\nedition = \"2021\"\n\
                    publish = false\n\n[dependencies]\nclap = \"2\"\nregex = \"1\"\n";
    assert_eq!(version(), _get_cargo_version(manifest));
}

#[test]
fn version_is_read_from_the_first_line_that_names_it() {
    assert_eq!(_get_cargo_version("version = \"1.2.3\"\nversion = \"4.5.6\"\n"), "1.2.3");
    assert_eq!(_get_cargo_version("name = \"x\"\r\nversion = \"1.2.3\"\r\n"), "1.2.3");
    assert_eq!(_get_cargo_version("a\nversion = \"1.2.3"), "1.2.3");
    assert_eq!(_get_cargo_version("a\nversion = \"1.2.3\r\n"), "1.2.3");
    assert_eq!(_get_cargo_version("a\nversion = \"1.2.3\r"), "1.2.3\r");
    assert_eq!(_get_cargo_version("rust-version = \"\"\n"), "");
}

#[test]
fn version_is_empty_where_none_is_named() {
    assert_eq!(_get_cargo_version(""), "");
    assert_eq!(_get_cargo_version("[package]\nname = \"fx\"\n"), "");
}

#[test]
fn str_to_int32_parses_or_defaults() {
    assert_eq!(str_to_int32("17", -1), 17);
    assert_eq!(str_to_int32("-17", -1), -17);
    assert_eq!(str_to_int32("+17", -1), 17);
    assert_eq!(str_to_int32("0017", -1), 17);
    assert_eq!(str_to_int32("2147483647", -1), 2147483647);
    assert_eq!(str_to_int32("-2147483648", -1), -2147483648);
    assert_eq!(str_to_int32("2147483648", -1), -1);
    assert_eq!(str_to_int32("-2147483649", 5), 5);
    assert_eq!(str_to_int32("99999999999999999999999999", 5), 5);
    assert_eq!(str_to_int32("", 5), 5);
    assert_eq!(str_to_int32("-", 5), 5);
    assert_eq!(str_to_int32("+", 5), 5);
    assert_eq!(str_to_int32("1_000", 5), 5);
    assert_eq!(str_to_int32(" 1", 5), 5);
    assert_eq!(str_to_int32("1 ", 5), 5);
    assert_eq!(str_to_int32("12a", 5), 5);
    assert_eq!(str_to_int32("--1", 5), 5);
    assert_eq!(str_to_int32("\u{661}", 5), 5);
}

#[test]
fn str_to_int32_agrees_with_the_standard_parser() {
    for text in ["0", "-0", "+0", "7", "-7", "+7", "", "+", "-", "x", "1x", "١", "2147483647",
                 "2147483648", "-2147483648", "-2147483649", "00000000000000000000001"] {
        let expected: i32 = text.parse().unwrap_or(-1);
        assert_eq!(str_to_int32(text, -1), expected, "for {:?}", text);
    }
}
