//! The template expander: a command template holds a placeholder, and
//! expanding it puts a value in the place of every occurrence.

use crate::text::{contains, has_match, replace, replace_all};
use vstd::prelude::*;
use vstd::string::StringExecFns;

verus! {

/// The placeholder that stands for a value where none is configured.
pub const DEFAULT_PLACEHOLDER: &'static str = "%";

/// Why a template and a placeholder cannot be used together.
#[derive(Clone, Copy, Debug, PartialEq, Eq, Structural)]
pub enum ConfigError {
    /// The placeholder is the empty string.
    EmptyPlaceholder,
    /// The placeholder does not occur in the template.
    MissingPlaceholder,
}

/// What `validate` decides: an empty placeholder is refused first, then a
/// template in which the placeholder does not occur.
pub open spec fn validated(template: Seq<char>, placeholder: Seq<char>) -> Result<(), ConfigError> {
    if placeholder.len() == 0 {
        Err(ConfigError::EmptyPlaceholder)
    } else if !contains(template, placeholder) {
        Err(ConfigError::MissingPlaceholder)
    } else {
        Ok(())
    }
}

/// The text of the report on a configuration error.
pub open spec fn config_message(template: Seq<char>, placeholder: Seq<char>) -> Seq<char> {
    "no '"@ + placeholder + "' found in '"@ + template + "'"@
}

/// The expansions of `template`, one for each of `values`, in their order.
pub open spec fn expand_each(
    template: Seq<char>,
    placeholder: Seq<char>,
    values: Seq<Seq<char>>,
) -> Seq<Seq<char>> {
    Seq::new(values.len(), |i: int| replace_all(template, placeholder, values[i]))
}

/// Checks that `placeholder` is not empty and occurs in `template`.
pub fn validate(template: &str, placeholder: &str) -> (checked: Result<(), ConfigError>)
    ensures
        checked == validated(template@, placeholder@),
{
    if placeholder.is_empty() {
        Err(ConfigError::EmptyPlaceholder)
    } else if !has_match(template, placeholder) {
        Err(ConfigError::MissingPlaceholder)
    } else {
        Ok(())
    }
}

/// `template` with every occurrence of `placeholder` replaced by `value`.
/// A template without the placeholder is returned as it is; callers that
/// generate commands refuse such a template, and an empty placeholder, with
/// `validate` before they expand anything.
pub fn expand(template: &str, placeholder: &str, value: &str) -> (out: String)
    ensures
        out@ == replace_all(template@, placeholder@, value@),
{
    replace(template, placeholder, value)
}

impl ConfigError {
    /// The one-line report on this error for the user.
    pub fn message(&self, template: &str, placeholder: &str) -> (line: String)
        ensures
            line@ == config_message(template@, placeholder@),
    {
        let mut line = String::from_str("no '");
        line.append(placeholder);
        line.append("' found in '");
        line.append(template);
        line.append("'");
        line
    }
}

} // verus!
