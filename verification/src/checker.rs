//! What stands in the way of a record of the mapping file: a file that is not
//! where the record says, or a name that is taken.

use crate::report::{display_result, result_line};
use crate::text::{decimal, decimal_string};
use vstd::prelude::*;
use vstd::string::*;

verus! {

/// How a record of the mapping file stands to the files on disk.
#[derive(Clone, Copy, Debug, PartialEq, Eq, Structural)]
pub enum InputStatus {
    /// The file is there and the name is free.
    Ready,
    /// The file is not there; the name is free.
    OriginMissing,
    /// The file is not there, and the name is taken.
    OriginMissingNameTaken,
    /// The file is there, and the name is taken.
    NameTaken,
}

/// The status of a record, from whether its origin is a file and whether its
/// new name is one.
pub open spec fn status_of(origin_is_file: bool, name_is_file: bool) -> InputStatus {
    if origin_is_file && !name_is_file {
        InputStatus::Ready
    } else if !origin_is_file && !name_is_file {
        InputStatus::OriginMissing
    } else if !origin_is_file && name_is_file {
        InputStatus::OriginMissingNameTaken
    } else {
        InputStatus::NameTaken
    }
}

/// How much a record adds to the count of errors.
pub open spec fn error_weight(status: InputStatus) -> nat {
    if status == InputStatus::Ready {
        0
    } else {
        1
    }
}

/// What a status line begins with.
pub open spec fn status_tag(status: InputStatus) -> Seq<char> {
    match status {
        InputStatus::Ready => "[ OK ]\t\t"@,
        InputStatus::OriginMissing => "\x1b[0;41m[Error 1]\x1b[0m\t"@,
        InputStatus::OriginMissingNameTaken => "\x1b[0;41m[Error 2]\x1b[0m\t"@,
        InputStatus::NameTaken => "\x1b[0;41m[Error 3]\x1b[0m\t"@,
    }
}

/// The line that shows a record with its status.
pub open spec fn status_line(origin: Seq<char>, name: Seq<char>, status: InputStatus) -> Seq<
    char,
> {
    status_tag(status) + result_line(origin, name)
}

/// The lines that sum the errors up and say what each kind means.
pub open spec fn error_lines(counts: nat) -> Seq<Seq<char>> {
    seq![
        "Errors found: "@ + decimal(counts),
        "\nError Kinds:"@,
        "Error 1: The original file is not found"@,
        "Error 2: The original file is not found, a file exists for the proposed name."@,
        "Error 3: The original file is found, a file exists for the proposed name."@,
    ]
}

/// Tells how a record stands to the files on disk.
pub fn classify(origin_is_file: bool, name_is_file: bool) -> (status: InputStatus)
    ensures
        status == status_of(origin_is_file, name_is_file),
{
    if origin_is_file && !name_is_file {
        InputStatus::Ready
    } else if !origin_is_file && !name_is_file {
        InputStatus::OriginMissing
    } else if !origin_is_file && name_is_file {
        InputStatus::OriginMissingNameTaken
    } else {
        InputStatus::NameTaken
    }
}

/// What a status line begins with.
fn tag(status: InputStatus) -> (text: &'static str)
    ensures
        text@ == status_tag(status),
{
    match status {
        InputStatus::Ready => "[ OK ]\t\t",
        InputStatus::OriginMissing => "\x1b[0;41m[Error 1]\x1b[0m\t",
        InputStatus::OriginMissingNameTaken => "\x1b[0;41m[Error 2]\x1b[0m\t",
        InputStatus::NameTaken => "\x1b[0;41m[Error 3]\x1b[0m\t",
    }
}

/// Checks one record against the disk, as `origin_is_file` and `name_is_file`
/// tell of it: writes its status line, and counts it in `errors` unless the
/// file is there and the name is free.
pub fn check_input_errors(
    origin: &str,
    name: &str,
    origin_is_file: bool,
    name_is_file: bool,
    errors: &mut u32,
) -> (line: String)
    requires
        *old(errors) + error_weight(status_of(origin_is_file, name_is_file)) <= u32::MAX,
    ensures
        line@ == status_line(origin@, name@, status_of(origin_is_file, name_is_file)),
        *final(errors) == *old(errors) + error_weight(status_of(origin_is_file, name_is_file)),
{
    let status = classify(origin_is_file, name_is_file);
    let mut line = String::from_str(tag(status));
    line.append(display_result(origin, name).as_str());
    match status {
        InputStatus::Ready => {},
        _ => {
            *errors = *errors + 1;
        },
    }
    line
}

/// Writes the lines that sum the errors up and say what each kind means.
pub fn display_errors(counts: u32) -> (lines: Vec<String>)
    ensures
        lines.deep_view() == error_lines(counts as nat),
{
    let mut first = String::from_str("Errors found: ");
    first.append(decimal_string(counts as u64).as_str());
    let mut lines: Vec<String> = Vec::new();
    lines.push(first);
    lines.push(String::from_str("\nError Kinds:"));
    lines.push(String::from_str("Error 1: The original file is not found"));
    lines.push(
        String::from_str(
            "Error 2: The original file is not found, a file exists for the proposed name.",
        ),
    );
    lines.push(
        String::from_str(
            "Error 3: The original file is found, a file exists for the proposed name.",
        ),
    );
    assert(lines.deep_view() =~= error_lines(counts as nat));
    lines
}

} // verus!
