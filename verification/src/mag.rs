//! Sizes of numbers: which unit scale a number is to be measured on.

use crate::text::{from_chars, replace, replace_all, trim, trimmed};
use vstd::prelude::*;
use vstd::string::StringExecFns;

verus! {

/// A number to be sized: its text, the divisor from one unit to the next, and
/// the names of the units, the smallest first.
#[derive(Debug, PartialEq, Eq)]
pub struct Sizing {
    pub numeral: String,
    pub divisor: u32,
    pub names: Vec<String>,
}

/// The mathematical value of a `Sizing`.
pub struct SizingView {
    pub numeral: Seq<char>,
    pub divisor: int,
    pub names: Seq<Seq<char>>,
}

impl View for Sizing {
    type V = SizingView;

    open spec fn view(&self) -> SizingView {
        SizingView {
            numeral: self.numeral@,
            divisor: self.divisor as int,
            names: self.names.deep_view(),
        }
    }
}

/// The names of the units that are 1024 apart.
pub open spec fn binary_units() -> Seq<Seq<char>> {
    seq!["b"@, "Kb"@, "Mb"@, "Gb"@, "Tb"@, "Pb"@, "Eb"@, "Zb"@, "Yb"@]
}

/// The names of the units that are 1000 apart.
pub open spec fn si_units() -> Seq<Seq<char>> {
    seq![""@, "K"@, "M"@, "G"@, "T"@, "P"@, "E"@, "Z"@, "Y"@]
}

/// The text of a number as it is read: without the underscores that group
/// its digits, and without white space around it.
pub open spec fn numeral_of(value: Seq<char>) -> Seq<char> {
    trim(replace_all(value, "_"@, ""@))
}

/// How `value` is to be sized: on the scale of 1024 where `binary` is set,
/// on that of 1000 otherwise.
pub open spec fn sizing_of(binary: bool, value: Seq<char>) -> SizingView {
    if binary {
        SizingView { numeral: numeral_of(value), divisor: 1024, names: binary_units() }
    } else {
        SizingView { numeral: numeral_of(value), divisor: 1000, names: si_units() }
    }
}

/// The unit names of the scale of 1024.
pub fn binary_names() -> (rval: Vec<String>)
    ensures
        rval.deep_view() == binary_units(),
{
    let mut rval: Vec<String> = Vec::new();
    rval.push(String::from_str("b"));
    rval.push(String::from_str("Kb"));
    rval.push(String::from_str("Mb"));
    rval.push(String::from_str("Gb"));
    rval.push(String::from_str("Tb"));
    rval.push(String::from_str("Pb"));
    rval.push(String::from_str("Eb"));
    rval.push(String::from_str("Zb"));
    rval.push(String::from_str("Yb"));
    rval
}

/// The unit names of the scale of 1000.
pub fn si_names() -> (rval: Vec<String>)
    ensures
        rval.deep_view() == si_units(),
{
    let mut rval: Vec<String> = Vec::new();
    rval.push(String::from_str(""));
    rval.push(String::from_str("K"));
    rval.push(String::from_str("M"));
    rval.push(String::from_str("G"));
    rval.push(String::from_str("T"));
    rval.push(String::from_str("P"));
    rval.push(String::from_str("E"));
    rval.push(String::from_str("Z"));
    rval.push(String::from_str("Y"));
    rval
}

/// Prepares the sizing of each of `values`, in their order: the text of the
/// number as it is to be read, and the scale that `binary` chooses.
pub fn mag(binary: bool, values: &[&str]) -> (list: Vec<Sizing>)
    ensures
        list.len() == values.len(),
        forall|i: int|
            0 <= i < list.len() ==> (#[trigger] list[i])@ == sizing_of(binary, values[i]@),
{
    let mut list: Vec<Sizing> = Vec::new();
    let mut i: usize = 0;
    while i < values.len()
        invariant
            i <= values.len(),
            list.len() == i,
            forall|k: int| 0 <= k < i ==> (#[trigger] list[k])@ == sizing_of(binary, values[k]@),
        decreases values.len() - i,
    {
        let plain = replace(values[i], "_", "");
        let kept = trimmed(plain.as_str());
        let numeral = from_chars(&kept, 0, kept.len());
        assert(kept@.subrange(0, kept@.len() as int) =~= kept@);
        let sizing = if binary {
            Sizing { numeral, divisor: 1024, names: binary_names() }
        } else {
            Sizing { numeral, divisor: 1000, names: si_names() }
        };
        list.push(sizing);
        i += 1;
    }
    list
}

} // verus!
