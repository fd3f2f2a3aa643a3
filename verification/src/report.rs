//! The line that reports a match.

use vstd::prelude::*;

verus! {

/// The line for a match: `diff=`, the distance from the target as it is
/// written, a comma and a tab, then the notation of the expression.
pub open spec fn match_line_text(distance: Seq<char>, notation: Seq<char>) -> Seq<char> {
    "diff="@ + distance + ",\t"@ + notation
}

/// Builds the line that reports a match, without a line break.
pub fn match_line(distance: &str, notation: &str) -> (line: String)
    ensures
        line@ == match_line_text(distance@, notation@),
{
    let mut line = String::from_str("diff=");
    line.append(distance);
    line.append(",\t");
    line.append(notation);
    line
}

} // verus!
