//! The unit of a column, guessed from its name.

use vstd::prelude::*;
use crate::text::{contains_text, has_substring, lowercase, lowercase_of};

verus! {

/// The unit for a column whose lower-case name is `lower`: the first of
/// these that applies; `units` if none does.
pub open spec fn unit_for(lower: Seq<char>) -> Seq<char> {
    if has_substring(lower, "inc"@) || has_substring(lower, "azi"@) || has_substring(
        lower,
        "tool-face"@,
    ) || has_substring(lower, "angle"@) {
        "Degrees"@
    } else if has_substring(lower, "vibe"@) || has_substring(lower, "accel"@) || has_substring(
        lower,
        "shock"@,
    ) || has_substring(lower, "gx"@) || has_substring(lower, "gy"@) || has_substring(lower, "gz"@)
        || has_substring(lower, "grav"@) {
        "G"@
    } else if has_substring(lower, "temp"@) {
        "\u{00B0}C"@
    } else if has_substring(lower, "gamma"@) {
        "CPS"@
    } else if has_substring(lower, "pulse"@) || has_substring(lower, "flow"@) {
        "Counts"@
    } else if has_substring(lower, "1v8"@) || has_substring(lower, "5v"@) || has_substring(
        lower,
        "3v3"@,
    ) || has_substring(lower, "bat"@) || has_substring(lower, "bus"@) {
        "V"@
    } else if has_substring(lower, "current"@) {
        "mA"@
    } else if has_substring(lower, "mag"@) || has_substring(lower, "mx"@) || has_substring(
        lower,
        "my"@,
    ) || has_substring(lower, "mz"@) {
        "Gauss"@
    } else if has_substring(lower, "rpm"@) {
        "RPM"@
    } else {
        "units"@
    }
}

/// Guesses the unit of a column from its name, whatever its case.
pub fn infer_unit(column_name: &str) -> (unit: String)
    ensures
        unit@ == unit_for(lowercase_of(column_name@)),
{
    let lower = lowercase(column_name);
    unit_for_lowercase(lower.as_str())
}

/// The unit of a column whose name, in lower case, is `lower`.
pub fn unit_for_lowercase(lower: &str) -> (unit: String)
    ensures
        unit@ == unit_for(lower@),
{
    if contains_text(lower, "inc") || contains_text(lower, "azi") || contains_text(
        lower,
        "tool-face",
    ) || contains_text(lower, "angle") {
        "Degrees".to_string()
    } else if contains_text(lower, "vibe") || contains_text(lower, "accel") || contains_text(
        lower,
        "shock",
    ) || contains_text(lower, "gx") || contains_text(lower, "gy") || contains_text(lower, "gz")
        || contains_text(lower, "grav") {
        "G".to_string()
    } else if contains_text(lower, "temp") {
        "\u{00B0}C".to_string()
    } else if contains_text(lower, "gamma") {
        "CPS".to_string()
    } else if contains_text(lower, "pulse") || contains_text(lower, "flow") {
        "Counts".to_string()
    } else if contains_text(lower, "1v8") || contains_text(lower, "5v") || contains_text(
        lower,
        "3v3",
    ) || contains_text(lower, "bat") || contains_text(lower, "bus") {
        "V".to_string()
    } else if contains_text(lower, "current") {
        "mA".to_string()
    } else if contains_text(lower, "mag") || contains_text(lower, "mx") || contains_text(
        lower,
        "my",
    ) || contains_text(lower, "mz") {
        "Gauss".to_string()
    } else if contains_text(lower, "rpm") {
        "RPM".to_string()
    } else {
        "units".to_string()
    }
}

} // verus!
