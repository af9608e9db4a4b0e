use fx::rename::{can_parse_substitute, parse_substitute, rename, Renaming};

#[test]
fn substitute_is_taken_apart_at_its_separator() {
    assert_eq!(parse_substitute("s/old/new/"), (String::from("old"), String::from("new")));
    assert_eq!(parse_substitute("s/old/new"), (String::from("old"), String::from("new")));
    assert_eq!(parse_substitute("s,a/b,c/d,"), (String::from("a/b"), String::from("c/d")));
    assert_eq!(parse_substitute("s/old//"), (String::from("old"), String::from("")));
    assert_eq!(parse_substitute("//a/b"), (String::from(""), String::from("a")));
}

#[test]
fn substitute_needs_two_separators() {
    assert!(can_parse_substitute("s/old/new/"));
    assert!(can_parse_substitute("s/old/new"));
    assert!(can_parse_substitute("s//"));
    assert!(!can_parse_substitute(""));
    assert!(!can_parse_substitute("s"));
    assert!(!can_parse_substitute("s/"));
    assert!(!can_parse_substitute("s/old"));
}

#[test]
fn dry_run_reports_each_name() {
    let steps = rename(true, false, "s/foo/bar/", vec!["foo.txt", "baz.txt", "foofoo"]);
    assert_eq!(steps, [
        Renaming { report: Some(String::from("Would rename foo.txt to bar.txt")), rename: None },
        Renaming { report: Some(String::from("Would not rename baz.txt -- no change")),
                   rename: None },
        Renaming { report: Some(String::from("Would rename foofoo to barbar")), rename: None },
    ]);
}

#[test]
fn quiet_run_renames_what_changes() {
    let steps = rename(false, false, "s/foo/bar/", vec!["foo.txt", "baz.txt"]);
    assert_eq!(steps, [
        Renaming { report: None,
                   rename: Some((String::from("foo.txt"), String::from("bar.txt"))) },
        Renaming { report: None, rename: None },
    ]);
}

#[test]
fn verbose_run_reports_and_renames() {
    let steps = rename(false, true, "s/foo/bar/", vec!["foo.txt", "baz.txt"]);
    assert_eq!(steps, [
        Renaming { report: Some(String::from("Renaming foo.txt to bar.txt")),
                   rename: Some((String::from("foo.txt"), String::from("bar.txt"))) },
        Renaming { report: Some(String::from("Not renaming baz.txt -- no change")),
                   rename: None },
    ]);
}

#[test]
fn both_modes_together_do_nothing() {
    let steps = rename(true, true, "s/foo/bar/", vec!["foo.txt", "baz.txt"]);
    assert_eq!(steps, [
        Renaming { report: Some(String::from("--dryrun and --verbose together don't make sense")),
                   rename: None },
    ]);
}

#[test]
fn empty_pattern_puts_the_text_between_all_characters() {
    let steps = rename(true, false, "s//-/", vec!["ab"]);
    assert_eq!(steps[0].report, Some(String::from("Would rename ab to -a-b-")));
}
