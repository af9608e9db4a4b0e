//! Command-line effects: a small toolbox of text utilities built around a
//! command-templating engine.

use vstd::prelude::*;

pub mod ascii;
pub mod cmd;
pub mod executor;
pub mod mag;
pub mod num;
pub mod odx;
pub mod perrno;
pub mod range;
pub mod rename;
pub mod template;
pub mod text;
pub mod xargs;

verus! {

/// The characters between the first and the second `"` of the first line of
/// `content` that holds the word `version`; nothing where no line holds it.
pub open spec fn cargo_version(content: Seq<char>) -> Seq<char> {
    match first_with(text::lines_of(content), "version"@) {
        Some(line) => text::pieces(line, '"')[1],
        None => seq![],
    }
}

/// The first of `lines` in which `word` stands.
pub open spec fn first_with(lines: Seq<Seq<char>>, word: Seq<char>) -> Option<Seq<char>>
    decreases lines.len(),
{
    if lines.len() == 0 {
        None
    } else if text::contains(lines[0], word) {
        Some(lines[0])
    } else {
        first_with(lines.skip(1), word)
    }
}

/// Whether the first line of `content` that holds the word `version` holds a
/// `"` too. It does where no line holds the word.
pub open spec fn version_is_quoted(content: Seq<char>) -> bool {
    match first_with(text::lines_of(content), "version"@) {
        Some(line) => text::pieces(line, '"').len() >= 2,
        None => true,
    }
}

/// The integer that `value` writes in decimal, or `default` where it writes
/// none that fits in 32 bits.
pub open spec fn int32_or(value: Seq<char>, default: int) -> int {
    match num::parse_int(value, 10, i32::MIN as int, i32::MAX as int) {
        Some(v) => v,
        None => default,
    }
}

/// The version of this toolbox.
pub fn version() -> (v: &'static str)
    ensures
        v@ == "0.0.6"@,
{
    "0.0.6"
}

/// Reads the version out of the text of a package manifest.
pub fn _get_cargo_version(content: &str) -> (rval: String)
    requires
        version_is_quoted(content@),
    ensures
        rval@ == cargo_version(content@),
{
    let all = text::lines(content);
    let mut i: usize = 0;
    assert(all.deep_view().skip(0) =~= all.deep_view());
    while i < all.len()
        invariant
            i <= all.len(),
            version_is_quoted(content@),
            all.deep_view() == text::lines_of(content@),
            first_with(text::lines_of(content@), "version"@) == first_with(
                all.deep_view().skip(i as int),
                "version"@,
            ),
        decreases all.len() - i,
    {
        let ghost rest = all.deep_view().skip(i as int);
        assert(rest.skip(1) =~= all.deep_view().skip(i + 1));
        if text::has_match(all[i].as_str(), "version") {
            let parts = text::split(all[i].as_str(), '"');
            return parts[1].clone();
        }
        i += 1;
    }
    String::new()
}

/// Parses `value` as a decimal integer of 32 bits; `default` stands in for a
/// text that is none.
pub fn str_to_int32(value: &str, default: i32) -> (rval: i32)
    ensures
        rval == int32_or(value@, default as int),
{
    let chars = text::to_chars(value);
    match num::parse_i64(&chars, 10) {
        Some(v) => if i32::MIN as i64 <= v && v <= i32::MAX as i64 {
            v as i32
        } else {
            default
        },
        None => default,
    }
}

} // verus!
