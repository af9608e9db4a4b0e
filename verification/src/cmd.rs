//! Commands from a list of items: each item fills the placeholder of one
//! command.

use crate::executor::{started, Executor};
use crate::template::{expand, expand_each, validate, validated, ConfigError, DEFAULT_PLACEHOLDER};
use crate::text::replace_all;
use vstd::prelude::*;

verus! {

/// Generates one command for each item, in the order of the items:
/// `template` with the item in the place of `placeholder`. Items that are
/// equal give equal commands; none is dropped.
pub fn generate_items(template: &str, placeholder: &str, items: &[&str]) -> (list: Vec<String>)
    ensures
        list.deep_view() == expand_each(template@, placeholder@, items.deep_view()),
        list.len() == items.len(),
{
    let mut list: Vec<String> = Vec::new();
    let mut i: usize = 0;
    while i < items.len()
        invariant
            i <= items.len(),
            list.len() == i,
            forall|k: int|
                0 <= k < i ==> (#[trigger] list[k])@ == replace_all(
                    template@,
                    placeholder@,
                    items[k]@,
                ),
        decreases items.len() - i,
    {
        list.push(expand(template, placeholder, items[i]));
        i += 1;
    }
    list
}

/// Generates one command for each item: `command` with the item in the place
/// of each `%`.
pub fn _cmdlist(command: &str, items: &[&str]) -> (list: Vec<String>)
    ensures
        list.deep_view() == expand_each(command@, DEFAULT_PLACEHOLDER@, items.deep_view()),
        list.len() == items.len(),
{
    generate_items(command, DEFAULT_PLACEHOLDER, items)
}

/// Prepares the run of `command` over `items`, with `%` as the placeholder.
/// A command without a `%` is refused, and nothing is generated.
pub fn cmd(dryrun: bool, verbose: bool, command: &str, items: &[&str]) -> (run: Result<
    Executor,
    ConfigError,
>)
    ensures
        match validated(command@, DEFAULT_PLACEHOLDER@) {
            Err(e) => run matches Err(err) && err == e,
            Ok(_) => run matches Ok(executor) && executor@ == started(
                expand_each(command@, DEFAULT_PLACEHOLDER@, items.deep_view()),
                dryrun,
                verbose,
            ),
        },
{
    match validate(command, DEFAULT_PLACEHOLDER) {
        Err(e) => Err(e),
        Ok(_) => Ok(Executor::new(_cmdlist(command, items), dryrun, verbose)),
    }
}

} // verus!
