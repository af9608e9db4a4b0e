//! Error numbers: the table of the numbers, names and meanings that the text
//! of an `errno.h` defines, and what it says of a number or a name.

use crate::num::{decimal, push_zero_padded};
use crate::text::from_chars;
use crate::{int32_or, str_to_int32};
use regex::Regex;
use std::collections::HashMap;
use vstd::prelude::*;
use vstd::std_specs::hash::spec_hash_map_iter;
use vstd::std_specs::iter::IteratorSpec;
use vstd::string::StringExecFns;

verus! {

broadcast use vstd::std_specs::hash::group_hash_axioms;

/// The pattern of a line that defines an error: the name, which starts with
/// `E`, the number, and the meaning, which is a comment.
pub const ERRNO_PATTERN: &'static str = r"#define\s(E\w*)\s+(\d+)\s+/\*\s+(\S[^*]*)\s\*/";

/// What the regular expression `pattern` finds in `haystack`: `None` where
/// `pattern` is refused; else, for each match, from left to right and without
/// overlap, its groups by their number, group 0 being the whole match, each
/// with the text that it matched, or `None` where it took no part.
pub uninterp spec fn regex_captures(pattern: Seq<char>, haystack: Seq<char>) -> Option<
    Seq<Seq<Option<Seq<char>>>>,
>;

/// Compiles `pattern` with `regex::Regex::new` and collects what
/// `Regex::captures_iter` yields on `haystack`: for each match what
/// `Captures::iter` yields, each group as an owned string. The contract gives
/// the result its name, and claims nothing else of it.
#[verifier::external_body]
fn find_captures(pattern: &str, haystack: &str) -> (found: Option<Vec<Vec<Option<String>>>>)
    ensures
        found.deep_view() == regex_captures(pattern@, haystack@),
{
    let re = match Regex::new(pattern) {
        Ok(re) => re,
        Err(_) => return None,
    };
    Some(
        re.captures_iter(haystack).map(
            |caps| caps.iter().map(|group| group.map(|m| m.as_str().to_owned())).collect(),
        ).collect(),
    )
}

/// The mathematical value of an entry: number, name, meaning.
pub open spec fn entry_view(entry: (i32, String, String)) -> (i32, Seq<char>, Seq<char>) {
    (entry.0, entry.1@, entry.2@)
}

/// The mathematical value of a table of entries by their numbers.
pub open spec fn table_view(table: Map<i32, (i32, String, String)>) -> Map<
    i32,
    (i32, Seq<char>, Seq<char>),
> {
    table.map_values(|entry: (i32, String, String)| entry_view(entry))
}

/// The entry that one match defines, if it defines one: the three groups took
/// part, and the second writes a number of 32 bits.
pub open spec fn entry_of(capture: Seq<Option<Seq<char>>>) -> Option<(i32, Seq<char>, Seq<char>)> {
    if capture.len() >= 4 && capture[1] is Some && capture[2] is Some && capture[3] is Some
        && int32_or(capture[2]->0, -1) >= 0 {
        Some((int32_or(capture[2]->0, -1) as i32, capture[1]->0, capture[3]->0))
    } else {
        None
    }
}

/// The table that the matches define: where a number is defined twice, the
/// first definition stands.
pub open spec fn table_of(captures: Seq<Seq<Option<Seq<char>>>>) -> Map<
    i32,
    (i32, Seq<char>, Seq<char>),
>
    decreases captures.len(),
{
    if captures.len() == 0 {
        Map::empty()
    } else {
        let earlier = table_of(captures.drop_last());
        match entry_of(captures.last()) {
            Some(entry) => if earlier.contains_key(entry.0) {
                earlier
            } else {
                earlier.insert(entry.0, entry)
            },
            None => earlier,
        }
    }
}

/// Builds the table of the entries that `captures` define.
pub fn collect_errors(captures: &Vec<Vec<Option<String>>>) -> (rval: HashMap<
    i32,
    (i32, String, String),
>)
    ensures
        table_view(rval@) == table_of(captures.deep_view()),
{
    let mut rval: HashMap<i32, (i32, String, String)> = HashMap::new();
    let mut i: usize = 0;
    while i < captures.len()
        invariant
            i <= captures.len(),
            table_view(rval@) == table_of(captures.deep_view().take(i as int)),
        decreases captures.len() - i,
    {
        let item = &captures[i];
        let ghost all = captures.deep_view();
        assert(all.take(i + 1).drop_last() =~= all.take(i as int));
        i += 1;
        if item.len() < 4 {
            continue;
        }
        match (&item[1], &item[2], &item[3]) {
            (Some(name), Some(number), Some(desc)) => {
                let value = str_to_int32(number.as_str(), -1);
                if value < 0 {
                    continue;
                }
                if !rval.contains_key(&value) {
                    let entry = (value, name.clone(), desc.clone());
                    rval.insert(value, entry);
                }
            },
            _ => {},
        }
    }
    assert(captures.deep_view().take(i as int) =~= captures.deep_view());
    rval
}

/// Reads the table of errors out of `data`, the text of an `errno.h`. `None`
/// says that the pattern of a definition was refused.
pub fn err_list(data: &str) -> (rval: Option<HashMap<i32, (i32, String, String)>>)
    ensures
        match regex_captures(ERRNO_PATTERN@, data@) {
            Some(captures) => rval matches Some(table) && table_view(table@) == table_of(captures),
            None => rval is None,
        },
{
    match find_captures(ERRNO_PATTERN, data) {
        Some(captures) => Some(collect_errors(&captures)),
        None => None,
    }
}

/// The mathematical value of a list of entries.
pub open spec fn entries_view(entries: Seq<(i32, String, String)>) -> Seq<
    (i32, Seq<char>, Seq<char>),
> {
    entries.map_values(|entry: (i32, String, String)| entry_view(entry))
}

/// Whether one of `entries` has the name `name`.
pub open spec fn holds_name(entries: Seq<(i32, Seq<char>, Seq<char>)>, name: Seq<char>) -> bool {
    exists|i: int| 0 <= i < entries.len() && (#[trigger] entries[i]).1 == name
}

/// Whether one of the entries of `table` is `entry`.
pub open spec fn holds_entry(
    table: Map<i32, (i32, Seq<char>, Seq<char>)>,
    entry: (i32, Seq<char>, Seq<char>),
) -> bool {
    exists|k: i32| #[trigger] table.contains_key(k) && table[k] == entry
}

/// Whether `index` is an index by name of `table`: it holds entries of the
/// table only, one for each name that the table holds, and no name twice.
/// Where the table holds a name under two numbers, either entry may stand
/// for it.
pub open spec fn is_name_index(
    table: Map<i32, (i32, Seq<char>, Seq<char>)>,
    index: Seq<(i32, Seq<char>, Seq<char>)>,
) -> bool {
    &&& forall|i: int, j: int| 0 <= i < j < index.len() ==> index[i].1 != index[j].1
    &&& forall|i: int| 0 <= i < index.len() ==> holds_entry(table, #[trigger] index[i])
    &&& forall|k: i32| #[trigger] table.contains_key(k) ==> holds_name(index, table[k].1)
}

/// The place of the entry named `name` in `entries`, if one is so named.
fn position_of(entries: &Vec<(i32, String, String)>, name: &String) -> (at: Option<usize>)
    ensures
        match at {
            Some(p) => p < entries.len() && entries[p as int].1@ == name@ && forall|i: int|
                0 <= i < p ==> entries[i].1@ != name@,
            None => forall|i: int| 0 <= i < entries.len() ==> entries[i].1@ != name@,
        },
{
    let mut i: usize = 0;
    while i < entries.len()
        invariant
            i <= entries.len(),
            forall|k: int| 0 <= k < i ==> entries[k].1@ != name@,
        decreases entries.len() - i,
    {
        if entries[i].1 == *name {
            return Some(i);
        }
        i += 1;
    }
    None
}

/// Builds the index by name of the table `by_num`.
pub fn index_by_name(by_num: &HashMap<i32, (i32, String, String)>) -> (var: Vec<
    (i32, String, String),
>)
    ensures
        is_name_index(table_view(by_num@), entries_view(var@)),
{
    broadcast use vstd::std_specs::hash::axiom_spec_hash_map_iter;

    let mut var: Vec<(i32, String, String)> = Vec::new();
    let ghost table = table_view(by_num@);
    let iter = by_num.iter();
    for item in it: iter
        invariant
            table == table_view(by_num@),
            it.seq() == spec_hash_map_iter(by_num).remaining(),
            forall|i: int, j: int| 0 <= i < j < var.len() ==> var[i].1@ != var[j].1@,
            forall|i: int|
                0 <= i < var.len() ==> holds_entry(table, #[trigger] entries_view(var@)[i]),
            forall|n: int|
                0 <= n < it.index() ==> holds_name(
                    entries_view(var@),
                    (#[trigger] it.seq()[n]).1.1@,
                ),
    {
        let ghost n = it.index();
        let ghost done = entries_view(var@);
        let tup = item.1;
        let entry = (tup.0, tup.1.clone(), tup.2.clone());
        assert(table.contains_key(*item.0) && table[*item.0] == entry_view(entry));
        let at = position_of(&var, &entry.1);
        let ghost place = match at {
            Some(p) => p as int,
            None => var.len() as int,
        };
        match at {
            Some(p) => {
                var.set(p, entry);
            },
            None => {
                var.push(entry);
            },
        }
        proof {
            let index = entries_view(var@);
            assert forall|i: int| 0 <= i < index.len() implies holds_entry(
                table,
                #[trigger] index[i],
            ) by {
                if i != place {
                    assert(index[i] == done[i]);
                }
            }
            assert forall|m: int| 0 <= m <= n implies holds_name(
                index,
                (#[trigger] it.seq()[m]).1.1@,
            ) by {
                if m < n {
                    let name = it.seq()[m].1.1@;
                    let i = choose|i: int| 0 <= i < done.len() && (#[trigger] done[i]).1 == name;
                    assert(index[i].1 == name);
                } else {
                    assert(index[place].1 == it.seq()[m].1.1@);
                }
            }
        }
    }
    proof {
        let index = entries_view(var@);
        let walked = spec_hash_map_iter(by_num).remaining();
        assert forall|k: i32| #[trigger] table.contains_key(k) implies holds_name(
            index,
            table[k].1,
        ) by {
            assert(walked.contains((&k, &by_num@[k])));
            let n = choose|n: int| 0 <= n < walked.len() && walked[n] == (&k, &by_num@[k]);
            assert(holds_name(index, walked[n].1.1@));
        }
        assert forall|i: int, j: int| 0 <= i < j < index.len() implies index[i].1 != index[j].1 by {
            assert(index[i].1 == var[i].1@ && index[j].1 == var[j].1@);
        }
    }
    var
}

/// The report on an entry: the name, the number in brackets, the meaning.
pub open spec fn found_line(entry: (i32, Seq<char>, Seq<char>)) -> Seq<char> {
    entry.1 + " ("@ + decimal(entry.0 as int) + "): "@ + entry.2
}

/// The report on a number or a name that no entry is found for.
pub open spec fn missing_line(key: Seq<char>) -> Seq<char> {
    "No error entry found for "@ + key
}

/// The first of `index` that has the name `name`.
pub open spec fn first_named(index: Seq<(i32, Seq<char>, Seq<char>)>, name: Seq<char>) -> Option<
    (i32, Seq<char>, Seq<char>),
>
    decreases index.len(),
{
    if index.len() == 0 {
        None
    } else if index[0].1 == name {
        Some(index[0])
    } else {
        first_named(index.skip(1), name)
    }
}

/// What is reported on `item`. An `item` that writes a number above 0 is
/// looked up by number in `table`, any other by name in `index`. An entry
/// whose own number is not above 0 counts as not found.
pub open spec fn description(
    table: Map<i32, (i32, Seq<char>, Seq<char>)>,
    index: Seq<(i32, Seq<char>, Seq<char>)>,
    item: Seq<char>,
) -> Seq<char> {
    let num = int32_or(item, -1);
    if 0 < num {
        if table.contains_key(num as i32) && 0 < table[num as i32].0 {
            found_line(table[num as i32])
        } else {
            missing_line(decimal(num))
        }
    } else {
        match first_named(index, item) {
            Some(entry) => if 0 < entry.0 {
                found_line(entry)
            } else {
                missing_line(item)
            },
            None => missing_line(item),
        }
    }
}

/// The number `num` in decimal.
fn number_text(num: i32) -> (text: String)
    ensures
        text@ == decimal(num as int),
{
    let mut digits: Vec<char> = Vec::new();
    push_zero_padded(&mut digits, num as i64, 0);
    let text = from_chars(&digits, 0, digits.len());
    text
}

/// Writes the report on `entry`.
fn entry_line(entry: &(i32, String, String)) -> (line: String)
    ensures
        line@ == found_line(entry_view(*entry)),
{
    let mut line = entry.1.clone();
    line.append(" (");
    line.append(number_text(entry.0).as_str());
    line.append("): ");
    line.append(entry.2.as_str());
    line
}

/// Writes the report that nothing is found for `key`.
fn no_entry_line(key: &str) -> (line: String)
    ensures
        line@ == missing_line(key@),
{
    let mut line = String::from_str("No error entry found for ");
    line.append(key);
    line
}

/// Reports on `item`, a number or a name, from the table by number and the
/// index by name.
pub fn describe(
    by_num: &HashMap<i32, (i32, String, String)>,
    by_name: &Vec<(i32, String, String)>,
    item: &str,
) -> (line: String)
    ensures
        line@ == description(table_view(by_num@), entries_view(by_name@), item@),
{
    let num = str_to_int32(item, -1);
    if 0 < num {
        match by_num.get(&num) {
            Some(tup) => if 0 < tup.0 {
                entry_line(tup)
            } else {
                no_entry_line(number_text(num).as_str())
            },
            None => no_entry_line(number_text(num).as_str()),
        }
    } else {
        let name = String::from_str(item);
        let ghost index = entries_view(by_name@);
        match position_of(by_name, &name) {
            Some(p) => {
                proof {
                    assert forall|i: int| 0 <= i < p implies index[i].1 != item@ by {
                        assert(index[i].1 == by_name[i].1@);
                    }
                    lemma_first_named(index, item@, p as int);
                }
                if 0 < by_name[p].0 {
                    entry_line(&by_name[p])
                } else {
                    no_entry_line(item)
                }
            },
            None => {
                proof {
                    assert forall|i: int| 0 <= i < index.len() implies index[i].1 != item@ by {
                        assert(index[i].1 == by_name[i].1@);
                    }
                    lemma_none_named(index, item@);
                }
                no_entry_line(item)
            },
        }
    }
}

/// The first entry of a name is the one at the first place with that name.
proof fn lemma_first_named(index: Seq<(i32, Seq<char>, Seq<char>)>, name: Seq<char>, p: int)
    requires
        0 <= p < index.len(),
        index[p].1 == name,
        forall|i: int| 0 <= i < p ==> index[i].1 != name,
    ensures
        first_named(index, name) == Some(index[p]),
    decreases p,
{
    if p > 0 {
        lemma_first_named(index.skip(1), name, p - 1);
    }
}

/// No entry is the first of a name that none has.
proof fn lemma_none_named(index: Seq<(i32, Seq<char>, Seq<char>)>, name: Seq<char>)
    requires
        forall|i: int| 0 <= i < index.len() ==> index[i].1 != name,
    ensures
        first_named(index, name) is None,
    decreases index.len(),
{
    if index.len() > 0 {
        assert forall|i: int| 0 <= i < index.skip(1).len() implies index.skip(1)[i].1 != name by {
            assert(index.skip(1)[i] == index[i + 1]);
        }
        lemma_none_named(index.skip(1), name);
    }
}

/// What is reported on `values` from the table that `captures` define: one
/// line for each value, in their order, each as `description` gives it, all
/// from one index by name of the table.
pub open spec fn reported(
    captures: Seq<Seq<Option<Seq<char>>>>,
    values: Seq<Seq<char>>,
    lines: Seq<Seq<char>>,
) -> bool {
    &&& lines.len() == values.len()
    &&& exists|index: Seq<(i32, Seq<char>, Seq<char>)>|
        {
            &&& is_name_index(table_of(captures), index)
            &&& forall|i: int|
                0 <= i < lines.len() ==> #[trigger] lines[i] == description(
                    table_of(captures),
                    index,
                    values[i],
                )
        }
}

/// Reports on each of `values`, in their order, from the table that
/// `captures` define.
pub fn report_errors(captures: &Vec<Vec<Option<String>>>, values: &[&str]) -> (list: Vec<String>)
    ensures
        reported(captures.deep_view(), values.deep_view(), list.deep_view()),
{
    let by_num = collect_errors(captures);
    let by_name = index_by_name(&by_num);
    let mut list: Vec<String> = Vec::new();
    let mut i: usize = 0;
    while i < values.len()
        invariant
            i <= values.len(),
            list.len() == i,
            forall|k: int|
                0 <= k < i ==> (#[trigger] list[k])@ == description(
                    table_view(by_num@),
                    entries_view(by_name@),
                    values[k]@,
                ),
        decreases values.len() - i,
    {
        list.push(describe(&by_num, &by_name, values[i]));
        i += 1;
    }
    proof {
        let lines = list.deep_view();
        let index = entries_view(by_name@);
        assert forall|k: int| 0 <= k < lines.len() implies #[trigger] lines[k] == description(
            table_of(captures.deep_view()),
            index,
            values.deep_view()[k],
        ) by {
            assert(lines[k] == list[k]@);
        }
    }
    list
}

/// Reports on each of `values`, in their order, from the table that `data`
/// defines. `data` is the text of an `errno.h`. `None` says that the pattern
/// of a definition was refused.
pub fn perrno(data: &str, values: &[&str]) -> (lines: Option<Vec<String>>)
    ensures
        match regex_captures(ERRNO_PATTERN@, data@) {
            Some(captures) => lines matches Some(list) && reported(
                captures,
                values.deep_view(),
                list.deep_view(),
            ),
            None => lines is None,
        },
{
    match find_captures(ERRNO_PATTERN, data) {
        Some(captures) => Some(report_errors(&captures, values)),
        None => None,
    }
}

} // verus!
