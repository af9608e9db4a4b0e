use fx::perrno::{collect_errors, describe, err_list, index_by_name, perrno, report_errors,
                 ERRNO_PATTERN};
use std::collections::HashMap;

const HEADER: &str = "/* errors */\n\
#define\tEPERM\t\t 1\t/* Operation not permitted */\n\
#define\tENOENT\t\t 2\t/* No such file or directory */\n\
#define  ESPACED 3 /* two spaces after define */\n\
#define EAGAIN 35 /* Resource temporarily unavailable */\n\
#define EWOULDBLOCK EAGAIN /* Operation would block */\n\
#define EAGAIN2 35 /* the number is taken */\n\
#define ENONE 0 /* Nothing */\n\
#define ELAST 106 /* Must be equal largest errno */\n\
#define XOTHER 7 /* no error name */\n";

fn entry(number: i32, name: &str, meaning: &str) -> (i32, String, String) {
    (number, name.to_string(), meaning.to_string())
}

fn group(text: &str) -> Option<String> {
    Some(text.to_string())
}

#[test]
fn pattern_is_that_of_a_definition() {
    assert_eq!(ERRNO_PATTERN, r"#define\s(E\w*)\s+(\d+)\s+/\*\s+(\S[^*]*)\s\*/");
}

#[test]
fn err_list_reads_the_definitions() {
    let table = err_list(HEADER).unwrap();
    let mut expected = HashMap::new();
    expected.insert(1, entry(1, "EPERM", "Operation not permitted"));
    expected.insert(2, entry(2, "ENOENT", "No such file or directory"));
    expected.insert(35, entry(35, "EAGAIN", "Resource temporarily unavailable"));
    expected.insert(0, entry(0, "ENONE", "Nothing"));
    expected.insert(106, entry(106, "ELAST", "Must be equal largest errno"));
    assert_eq!(table, expected);
}

#[test]
fn err_list_of_a_text_without_definitions_is_empty() {
    assert!(err_list("").unwrap().is_empty());
    assert!(err_list("#define EPERM 1\n").unwrap().is_empty());
}

#[test]
fn collect_errors_keeps_the_first_entry_of_a_number() {
    let captures = vec![
        vec![group("x"), group("EONE"), group("1"), group("one")],
        vec![group("x"), group("EUNO"), group("1"), group("uno")],
        vec![group("x"), group("ETWO"), group("2"), group("two")],
    ];
    let table = collect_errors(&captures);
    assert_eq!(table.len(), 2);
    assert_eq!(table[&1], entry(1, "EONE", "one"));
    assert_eq!(table[&2], entry(2, "ETWO", "two"));
}

#[test]
fn collect_errors_passes_over_what_defines_nothing() {
    let captures = vec![
        vec![group("x"), group("EBIG"), group("2147483648"), group("too large")],
        vec![group("x"), group("ENEG"), group("-4"), group("negative")],
        vec![group("x"), group("ESHORT"), group("5")],
        vec![group("x"), None, group("6"), group("no name")],
        vec![group("x"), group("ENUM"), None, group("no number")],
        vec![group("x"), group("EMEAN"), group("7"), None],
        vec![],
        vec![group("x"), group("EOK"), group("+8"), group("kept"), group("more")],
    ];
    let table = collect_errors(&captures);
    assert_eq!(table.len(), 1);
    assert_eq!(table[&8], entry(8, "EOK", "kept"));
}

#[test]
fn index_by_name_holds_each_name_once() {
    let mut table = HashMap::new();
    table.insert(1, entry(1, "EONE", "one"));
    table.insert(2, entry(2, "ETWO", "two"));
    table.insert(3, entry(3, "EONE", "one again"));
    let mut index = index_by_name(&table);
    index.sort_by(|a, b| a.1.cmp(&b.1));
    assert_eq!(index.len(), 2);
    assert_eq!(index[0].1, "EONE");
    assert!(index[0] == entry(1, "EONE", "one") || index[0] == entry(3, "EONE", "one again"));
    assert_eq!(index[1], entry(2, "ETWO", "two"));
    assert!(index_by_name(&HashMap::new()).is_empty());
}

#[test]
fn describe_looks_up_numbers_and_names() {
    let mut table = HashMap::new();
    table.insert(1, entry(1, "EONE", "one"));
    table.insert(0, entry(0, "EZERO", "zero"));
    let index = vec![entry(0, "EZERO", "zero"), entry(1, "EONE", "one")];
    assert_eq!(describe(&table, &index, "1"), "EONE (1): one");
    assert_eq!(describe(&table, &index, "+1"), "EONE (1): one");
    assert_eq!(describe(&table, &index, "EONE"), "EONE (1): one");
    assert_eq!(describe(&table, &index, "2"), "No error entry found for 2");
    assert_eq!(describe(&table, &index, "002"), "No error entry found for 2");
    assert_eq!(describe(&table, &index, "ETWO"), "No error entry found for ETWO");
    assert_eq!(describe(&table, &index, "0"), "No error entry found for 0");
    assert_eq!(describe(&table, &index, "-1"), "No error entry found for -1");
    assert_eq!(describe(&table, &index, "EZERO"), "No error entry found for EZERO");
    assert_eq!(describe(&table, &index, ""), "No error entry found for ");
}

#[test]
fn perrno_reports_on_each_value() {
    let lines = perrno(HEADER, &["1", "ENOENT", "35", "EWOULDBLOCK", "99", "EAGAIN2", "ELAST",
                                 "ENONE", "XOTHER", "3"]).unwrap();
    assert_eq!(lines, [
        "EPERM (1): Operation not permitted",
        "ENOENT (2): No such file or directory",
        "EAGAIN (35): Resource temporarily unavailable",
        "No error entry found for EWOULDBLOCK",
        "No error entry found for 99",
        "No error entry found for EAGAIN2",
        "ELAST (106): Must be equal largest errno",
        "No error entry found for ENONE",
        "No error entry found for XOTHER",
        "No error entry found for 3",
    ]);
}

#[test]
fn report_errors_reads_the_groups_of_each_match() {
    let captures = vec![
        vec![group("x"), group("EONE"), group("1"), group("one")],
        vec![group("x"), group("ETWO"), group("2"), group("two")],
    ];
    assert_eq!(report_errors(&captures, &["2", "EONE", "x", "3"]),
               ["ETWO (2): two", "EONE (1): one", "No error entry found for x",
                "No error entry found for 3"]);
}

#[test]
fn perrno_without_values_reports_nothing() {
    let none: [&str; 0] = [];
    assert!(perrno(HEADER, &none).unwrap().is_empty());
}
