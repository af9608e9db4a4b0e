use fx::template::{expand, validate, ConfigError, DEFAULT_PLACEHOLDER};

#[test]
fn expand_replaces_every_occurrence() {
    assert_eq!(expand("% and %", "%", "x"), "x and x");
    assert_eq!(expand("%%", "%", "ab"), "abab");
    assert_eq!(expand("%", "%", ""), "");
}

#[test]
fn expand_without_occurrence_changes_nothing() {
    assert_eq!(expand("echo hello", "%", "x"), "echo hello");
    assert_eq!(expand("", "%", "x"), "");
}

#[test]
fn expand_takes_longer_placeholders_from_the_left() {
    assert_eq!(expand("cp {} {}.bak", "{}", "f"), "cp f f.bak");
    assert_eq!(expand("aaa", "aa", "b"), "ba");
    assert_eq!(expand("aaaa", "aa", "b"), "bb");
    assert_eq!(expand("abab", "ab", "ab"), "abab");
    assert_eq!(expand("x%y", "%", "%%"), "x%%y");
}

#[test]
fn expand_agrees_with_the_standard_replace() {
    for (t, p, v) in [("% and %", "%", "x"), ("a.b.c", ".", ".."), ("ééé", "é", "e"),
                      ("abcabc", "bc", ""), ("abc", "abcd", "x"), ("abc", "", "-"),
                      ("", "", "-"), ("aXbXc", "X", "日本")] {
        assert_eq!(expand(t, p, v), t.replace(p, v), "for {:?} {:?} {:?}", t, p, v);
    }
}

#[test]
fn validate_accepts_a_template_with_the_placeholder() {
    assert_eq!(validate("echo %", "%"), Ok(()));
    assert_eq!(validate("%", "%"), Ok(()));
    assert_eq!(validate("echo {}", "{}"), Ok(()));
    assert_eq!(validate("echo %", DEFAULT_PLACEHOLDER), Ok(()));
}

#[test]
fn validate_refuses_an_empty_placeholder() {
    assert_eq!(validate("echo %", ""), Err(ConfigError::EmptyPlaceholder));
    assert_eq!(validate("", ""), Err(ConfigError::EmptyPlaceholder));
}

#[test]
fn validate_refuses_a_template_without_the_placeholder() {
    assert_eq!(validate("echo hello", "%"), Err(ConfigError::MissingPlaceholder));
    assert_eq!(validate("", "%"), Err(ConfigError::MissingPlaceholder));
    assert_eq!(validate("echo {", "{}"), Err(ConfigError::MissingPlaceholder));
}

#[test]
fn config_errors_have_one_line_reports() {
    assert_eq!(ConfigError::MissingPlaceholder.message("echo hello", "%"),
               "no '%' found in 'echo hello'");
    assert_eq!(ConfigError::EmptyPlaceholder.message("echo hello", ""),
               "no '' found in 'echo hello'");
}
