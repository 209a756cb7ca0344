//! The lines that tell the operator what happened to each file.

use crate::text::{decimal, decimal_string};
use vstd::prelude::*;
use vstd::string::*;

verus! {

/// A path as it is shown to the operator: what the `Debug` formatting of
/// `std::path::Path` writes for it, in double quotes and with escapes.
pub uninterp spec fn path_quoted(path: Seq<char>) -> Seq<char>;

/// Formats `path` as `std::path::Path` does for `{:?}`. Nothing is claimed of
/// the text but that it is the one `path_quoted` names.
#[verifier::external_body]
pub(crate) fn quoted(path: &str) -> (shown: String)
    ensures
        shown@ == path_quoted(path@),
{
    format!("{:?}", std::path::Path::new(path))
}

/// The line for one rename: the path before, an arrow, the path after.
pub open spec fn result_line(current: Seq<char>, new: Seq<char>) -> Seq<char> {
    path_quoted(current) + " \x1b[0;36m => \x1b[0m "@ + path_quoted(new)
}

/// The line for a rename that was refused for want of permission.
pub open spec fn denied_line(origin: Seq<char>) -> Seq<char> {
    "Can't rename "@ + path_quoted(origin) + ". It may be used by another program."@
}

/// The line for a rename that was refused a second time.
pub open spec fn still_denied_line(origin: Seq<char>) -> Seq<char> {
    "Still can't rename "@ + path_quoted(origin) + ". Skipping it..."@
}

/// The line for a file that the operator chose to leave as it is.
pub open spec fn skipping_line(origin: Seq<char>) -> Seq<char> {
    "Skipping "@ + path_quoted(origin)
}

/// The line for a file that was not there to be renamed.
pub open spec fn not_found_line(origin: Seq<char>) -> Seq<char> {
    path_quoted(origin) + " \x1b[0;41mNOT FOUND!\x1b[0m"@
}

/// The diagnostic for a rename that failed for a reason the executor knows no
/// remedy for.
pub open spec fn fatal_line(path: Seq<char>) -> Seq<char> {
    "CAN'T RENAME THE FILE "@ + path_quoted(path)
}

/// The last line of a run: how many files were renamed.
pub open spec fn summary_line(renamed: nat) -> Seq<char> {
    "\nTotal files renamed: "@ + decimal(renamed)
}

/// Writes the line for one rename. It serves renames, the renames that undo
/// them, and previews alike.
pub fn display_result(current: &str, new: &str) -> (line: String)
    ensures
        line@ == result_line(current@, new@),
{
    let mut line = quoted(current);
    line.append(" \x1b[0;36m => \x1b[0m ");
    line.append(quoted(new).as_str());
    line
}

/// Writes the line for a rename that was refused for want of permission.
pub fn display_denied(origin: &str) -> (line: String)
    ensures
        line@ == denied_line(origin@),
{
    let mut line = String::from_str("Can't rename ");
    line.append(quoted(origin).as_str());
    line.append(". It may be used by another program.");
    line
}

/// Writes the line for a rename that was refused a second time.
pub fn display_still_denied(origin: &str) -> (line: String)
    ensures
        line@ == still_denied_line(origin@),
{
    let mut line = String::from_str("Still can't rename ");
    line.append(quoted(origin).as_str());
    line.append(". Skipping it...");
    line
}

/// Writes the line for a file that the operator chose to leave as it is.
pub fn display_skipping(origin: &str) -> (line: String)
    ensures
        line@ == skipping_line(origin@),
{
    let mut line = String::from_str("Skipping ");
    line.append(quoted(origin).as_str());
    line
}

/// Writes the line for a file that was not there to be renamed.
pub fn display_not_found(origin: &str) -> (line: String)
    ensures
        line@ == not_found_line(origin@),
{
    let mut line = quoted(origin);
    line.append(" \x1b[0;41mNOT FOUND!\x1b[0m");
    line
}

/// Writes the diagnostic for a rename that failed beyond remedy.
pub fn display_fatal(path: &str) -> (line: String)
    ensures
        line@ == fatal_line(path@),
{
    let mut line = String::from_str("CAN'T RENAME THE FILE ");
    line.append(quoted(path).as_str());
    line
}

/// Writes the last line of a run.
pub fn display_summary(renamed: usize) -> (line: String)
    ensures
        line@ == summary_line(renamed as nat),
{
    let mut line = String::from_str("\nTotal files renamed: ");
    line.append(decimal_string(renamed as u64).as_str());
    line
}

} // verus!
