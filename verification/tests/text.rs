use fx::text::{find, from_chars, has_match, is_whitespace, lines, matches_at, replace,
               replace_chars, split, split_whitespace, to_chars, trim_bounds, trimmed};

fn chars(s: &str) -> Vec<char> {
    s.chars().collect()
}

#[test]
fn characters_go_to_a_vector_and_back() {
    assert_eq!(to_chars("aé日"), vec!['a', 'é', '日']);
    assert!(to_chars("").is_empty());
    assert_eq!(from_chars(&chars("hello"), 1, 4), "ell");
    assert_eq!(from_chars(&chars("hello"), 2, 2), "");
    assert_eq!(from_chars(&chars("aé日"), 0, 3), "aé日");
}

#[test]
fn white_space_is_what_the_standard_library_says() {
    for code in 0..0x11000u32 {
        if let Some(c) = char::from_u32(code) {
            assert_eq!(is_whitespace(c), c.is_whitespace(), "for U+{:04X}", code);
        }
    }
}

#[test]
fn matches_are_found_at_their_place() {
    let s = chars("abcabc");
    assert!(matches_at(&s, &chars("bc"), 1));
    assert!(!matches_at(&s, &chars("bc"), 2));
    assert!(matches_at(&s, &chars("bc"), 4));
    assert!(!matches_at(&s, &chars("bc"), 5));
    assert!(!matches_at(&s, &chars("bc"), 99));
    assert!(matches_at(&s, &chars(""), 6));
    assert!(!matches_at(&s, &chars(""), 7));
    assert_eq!(find(&s, &chars("bc")), Some(1));
    assert_eq!(find(&s, &chars("c")), Some(2));
    assert_eq!(find(&s, &chars("cb")), None);
    assert_eq!(find(&s, &chars("")), Some(0));
    assert_eq!(find(&chars(""), &chars("")), Some(0));
    assert_eq!(find(&chars(""), &chars("a")), None);
    assert_eq!(find(&s, &chars("abcabcd")), None);
    assert!(has_match("echo %", "%"));
    assert!(!has_match("echo", "%"));
    assert!(has_match("echo", ""));
}

#[test]
fn replace_is_the_standard_replace() {
    for (t, p, v) in [("a-b-c", "-", "+"), ("aaa", "aa", "b"), ("abc", "", "."), ("", "", "."),
                      ("", "a", "."), ("abc", "abc", ""), ("abc", "c", "cc"), ("ab", "abc", "x")] {
        assert_eq!(replace(t, p, v), t.replace(p, v), "for {:?} {:?} {:?}", t, p, v);
        assert_eq!(replace_chars(&chars(t), &chars(p), &chars(v)), chars(&t.replace(p, v)));
    }
}

#[test]
fn words_are_the_runs_without_white_space() {
    assert_eq!(split_whitespace("  a bb\tccc\n\nd  "), ["a", "bb", "ccc", "d"]);
    assert_eq!(split_whitespace("one"), ["one"]);
    assert!(split_whitespace("").is_empty());
    assert!(split_whitespace(" \t\r\n").is_empty());
    assert_eq!(split_whitespace("a\u{3000}b\u{85}c"), ["a", "b", "c"]);
}

#[test]
fn pieces_keep_the_empty_ones() {
    assert_eq!(split("s/old/new/", '/'), ["s", "old", "new", ""]);
    assert_eq!(split("", '/'), [""]);
    assert_eq!(split("/", '/'), ["", ""]);
    assert_eq!(split("abc", '/'), ["abc"]);
    assert_eq!(split("a//b", '/'), ["a", "", "b"]);
}

#[test]
fn lines_are_the_standard_lines() {
    for text in ["", "a", "a\n", "a\nb", "a\r\nb\r\n", "\n", "\n\n", "a\r", "a\r\n", "\r\n",
                 "a\n\nb", "a\r\r\nb", "\r"] {
        let expected: Vec<&str> = text.lines().collect();
        assert_eq!(lines(text), expected, "for {:?}", text);
    }
}

#[test]
fn trimming_is_the_standard_trim() {
    for text in ["", " ", "a", " a", "a ", "  a b  ", "\t\na\u{a0}", "\u{2003}x\u{2003}y\u{2003}"] {
        assert_eq!(trimmed(text), chars(text.trim()), "for {:?}", text);
    }
    assert_eq!(trim_bounds(&chars("  ab ")), (2, 4));
    assert_eq!(trim_bounds(&chars("   ")), (3, 3));
}
