//! Renaming by substitution: an expression such as `s/old/new/` says which
//! part of a name gives way to which text.

use crate::text::{pieces, replace, replace_all, split, to_chars};
use vstd::prelude::*;
use vstd::string::StringExecFns;

verus! {

/// What is to be done for one name: a line to print, if any, and a renaming
/// to carry out after it, if any, from the first name to the second.
#[derive(Debug, PartialEq, Eq)]
pub struct Renaming {
    pub report: Option<String>,
    pub rename: Option<(String, String)>,
}

/// The mathematical value of a `Renaming`.
pub struct RenamingView {
    pub report: Option<Seq<char>>,
    pub rename: Option<(Seq<char>, Seq<char>)>,
}

impl View for Renaming {
    type V = RenamingView;

    open spec fn view(&self) -> RenamingView {
        RenamingView {
            report: match self.report {
                Some(line) => Some(line@),
                None => None,
            },
            rename: match self.rename {
                Some((from, to)) => Some((from@, to@)),
                None => None,
            },
        }
    }
}

/// Whether `subst` is a substitute expression: its second character is the
/// separator, and the separator occurs once more at least.
pub open spec fn is_substitute(subst: Seq<char>) -> bool {
    subst.len() >= 2 && pieces(subst, subst[1]).len() >= 3
}

/// The two texts of a substitute expression: what stands between the first
/// and the second separator, and between the second and the third or the end.
pub open spec fn substitute_parts(subst: Seq<char>) -> (Seq<char>, Seq<char>) {
    let parts = pieces(subst, subst[1]);
    (parts[1], parts[2])
}

/// The report that a dry run and reports on each renaming exclude each other.
pub open spec fn conflict_line() -> Seq<char> {
    "--dryrun and --verbose together don't make sense"@
}

/// What is to be done for the name `item`, where `old` gives way to `new`.
/// A dry run reports and renames nothing. Otherwise a name that changes is
/// renamed, and `verbose` adds a report on every name.
pub open spec fn renaming_of(
    dryrun: bool,
    verbose: bool,
    old: Seq<char>,
    new: Seq<char>,
    item: Seq<char>,
) -> RenamingView {
    let target = replace_all(item, old, new);
    if dryrun {
        RenamingView {
            report: Some(
                if item == target {
                    "Would not rename "@ + item + " -- no change"@
                } else {
                    "Would rename "@ + item + " to "@ + target
                },
            ),
            rename: None,
        }
    } else if item == target {
        RenamingView {
            report: if verbose {
                Some("Not renaming "@ + item + " -- no change"@)
            } else {
                None
            },
            rename: None,
        }
    } else {
        RenamingView {
            report: if verbose {
                Some("Renaming "@ + item + " to "@ + target)
            } else {
                None
            },
            rename: Some((item, target)),
        }
    }
}

/// What is to be done for `items`: nothing but a report where both modes are
/// set, else one step for each name, in their order.
pub open spec fn renamings(
    dryrun: bool,
    verbose: bool,
    subst: Seq<char>,
    items: Seq<Seq<char>>,
) -> Seq<RenamingView> {
    if dryrun && verbose {
        seq![RenamingView { report: Some(conflict_line()), rename: None }]
    } else {
        Seq::new(
            items.len(),
            |i: int|
                renaming_of(
                    dryrun,
                    verbose,
                    substitute_parts(subst).0,
                    substitute_parts(subst).1,
                    items[i],
                ),
        )
    }
}

/// Whether `subst` is a substitute expression.
pub fn can_parse_substitute(subst: &str) -> (b: bool)
    ensures
        b == is_substitute(subst@),
{
    let chars = to_chars(subst);
    if chars.len() < 2 {
        return false;
    }
    split(subst, chars[1]).len() >= 3
}

/// Takes a substitute expression apart: the text to replace and the text to
/// put in its place.
pub fn parse_substitute(subst: &str) -> (parts: (String, String))
    requires
        is_substitute(subst@),
    ensures
        parts.0@ == substitute_parts(subst@).0,
        parts.1@ == substitute_parts(subst@).1,
{
    let chars = to_chars(subst);
    let sep = chars[1];
    let pieces = split(subst, sep);
    (pieces[1].clone(), pieces[2].clone())
}

/// Decides what is to be done for the name `item`.
fn plan_one(dryrun: bool, verbose: bool, old: &str, new: &str, item: &str) -> (step: Renaming)
    ensures
        step@ == renaming_of(dryrun, verbose, old@, new@, item@),
{
    let target = replace(item, old, new);
    let source = String::from_str(item);
    let same = source == target;
    if dryrun {
        let line = if same {
            let mut line = String::from_str("Would not rename ");
            line.append(item);
            line.append(" -- no change");
            line
        } else {
            let mut line = String::from_str("Would rename ");
            line.append(item);
            line.append(" to ");
            line.append(target.as_str());
            line
        };
        Renaming { report: Some(line), rename: None }
    } else if same {
        let report = if verbose {
            let mut line = String::from_str("Not renaming ");
            line.append(item);
            line.append(" -- no change");
            Some(line)
        } else {
            None
        };
        Renaming { report, rename: None }
    } else {
        let report = if verbose {
            let mut line = String::from_str("Renaming ");
            line.append(item);
            line.append(" to ");
            line.append(target.as_str());
            Some(line)
        } else {
            None
        };
        Renaming { report, rename: Some((source, target)) }
    }
}

/// Prepares the renaming of `items` by the substitute expression `subst`.
pub fn rename(dryrun: bool, verbose: bool, subst: &str, items: Vec<&str>) -> (steps: Vec<Renaming>)
    requires
        is_substitute(subst@),
    ensures
        steps.len() == renamings(dryrun, verbose, subst@, items.deep_view()).len(),
        forall|i: int|
            0 <= i < steps.len() ==> (#[trigger] steps[i])@ == renamings(
                dryrun,
                verbose,
                subst@,
                items.deep_view(),
            )[i],
{
    let tup = parse_substitute(subst);
    let mut steps: Vec<Renaming> = Vec::new();
    if dryrun && verbose {
        steps.push(
            Renaming {
                report: Some(String::from_str("--dryrun and --verbose together don't make sense")),
                rename: None,
            },
        );
        return steps;
    }
    let mut i: usize = 0;
    while i < items.len()
        invariant
            i <= items.len(),
            steps.len() == i,
            tup.0@ == substitute_parts(subst@).0,
            tup.1@ == substitute_parts(subst@).1,
            forall|k: int|
                0 <= k < i ==> (#[trigger] steps[k])@ == renaming_of(
                    dryrun,
                    verbose,
                    tup.0@,
                    tup.1@,
                    items[k]@,
                ),
        decreases items.len() - i,
    {
        steps.push(plan_one(dryrun, verbose, tup.0.as_str(), tup.1.as_str(), items[i]));
        i += 1;
    }
    steps
}

} // verus!
