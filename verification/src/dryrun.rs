//! The preview of a mapping file: every record is resolved and checked against
//! the files that are known to be on disk, and nothing is renamed.

use crate::checker::{
    check_input_errors, display_errors, error_lines, error_weight, status_line, status_of,
};
use crate::parser::{
    columns, display_wide, is_wide, parse_record, record_of, wide_line, CsvError,
};
use crate::text::{decimal, decimal_string};
use vstd::prelude::*;
use vstd::string::*;

verus! {

/// The line that opens the check of a mapping file.
pub open spec fn checking_line() -> Seq<char> {
    "Checking csv input..."@
}

/// The line that tells how many records a mapping file holds.
pub open spec fn entries_line(count: nat) -> Seq<char> {
    "\nEntries found: "@ + decimal(count)
}

/// What the check of the first `upto` lines of a mapping file shows, and how
/// many errors it counts, given the paths in `files` as those that name a
/// file on disk: a warning for each record with more than two columns, and
/// for each record its status line.
pub open spec fn checked(lines: Seq<Seq<char>>, files: Seq<Seq<char>>, upto: nat) -> Result<
    (Seq<Seq<char>>, nat),
    CsvError,
>
    decreases upto,
{
    if upto <= 1 {
        Ok((seq![checking_line()], 0nat))
    } else {
        match checked(lines, files, (upto - 1) as nat) {
            Err(error) => Err(error),
            Ok(earlier) => match record_of(lines[upto - 1], upto as u32) {
                Err(error) => Err(error),
                Ok(record) => {
                    let status = status_of(files.contains(record.0), files.contains(record.1));
                    let warned = if columns(lines[upto - 1]).len() > 2 {
                        earlier.0.push(wide_line(upto as u32))
                    } else {
                        earlier.0
                    };
                    Ok(
                        (
                            warned.push(status_line(record.0, record.1, status)),
                            earlier.1 + error_weight(status),
                        ),
                    )
                },
            },
        }
    }
}

/// How many records a mapping file of `lines` lines holds.
pub open spec fn entries_found(lines: nat) -> nat {
    if lines == 0 {
        0
    } else {
        (lines - 1) as nat
    }
}

/// What the check of a whole mapping file shows, and how many errors it
/// counts: what `checked` gives for all its lines, and the count of records.
pub open spec fn input_report(lines: Seq<Seq<char>>, files: Seq<Seq<char>>) -> Result<
    (Seq<Seq<char>>, nat),
    CsvError,
> {
    match checked(lines, files, lines.len()) {
        Err(error) => Err(error),
        Ok(shown) => Ok((shown.0.push(entries_line(entries_found(lines.len()))), shown.1)),
    }
}

/// What a preview shows: the check of the whole file, and the errors summed
/// up where there are any.
pub open spec fn preview(lines: Seq<Seq<char>>, files: Seq<Seq<char>>) -> Result<
    Seq<Seq<char>>,
    CsvError,
> {
    match input_report(lines, files) {
        Err(error) => Err(error),
        Ok(shown) => if shown.1 > 0 {
            Ok(shown.0 + error_lines(shown.1))
        } else {
            Ok(shown.0)
        },
    }
}

/// The outcome of a check with its lines as plain text.
pub open spec fn report_text(outcome: Result<(Vec<String>, u32), CsvError>) -> Result<
    (Seq<Seq<char>>, nat),
    CsvError,
> {
    match outcome {
        Ok(shown) => Ok((shown.0.deep_view(), shown.1 as nat)),
        Err(error) => Err(error),
    }
}

/// The outcome of a preview with its lines as plain text.
pub open spec fn preview_text(outcome: Result<Vec<String>, CsvError>) -> Result<
    Seq<Seq<char>>,
    CsvError,
> {
    match outcome {
        Ok(shown) => Ok(shown.deep_view()),
        Err(error) => Err(error),
    }
}

/// Whether `path` is among `files`.
pub fn is_listed(files: &Vec<String>, path: &str) -> (found: bool)
    ensures
        found == files.deep_view().contains(path@),
{
    let wanted = String::from_str(path);
    let mut i: usize = 0;
    while i < files.len()
        invariant
            i <= files.len(),
            wanted@ == path@,
            forall|j: int| 0 <= j < i ==> files.deep_view()[j] != path@,
        decreases files.len() - i,
    {
        if files[i] == wanted {
            assert(files.deep_view()[i as int] == path@);
            return true;
        }
        i += 1;
    }
    false
}

/// Checks every record of a mapping file, given as its lines, against the
/// disk, given as the paths that name a file: the lines to show, and the
/// count of records that something stands in the way of.
pub fn check_csv(lines: &Vec<String>, files: &Vec<String>) -> (shown: Result<
    (Vec<String>, u32),
    CsvError,
>)
    requires
        lines.len() <= u32::MAX,
    ensures
        report_text(shown) == input_report(lines.deep_view(), files.deep_view()),
{
    let mut report: Vec<String> = Vec::new();
    let mut errors: u32 = 0;
    report.push(String::from_str("Checking csv input..."));
    assert(report.deep_view() =~= seq![checking_line()]);
    let mut i: usize = 1;
    while i < lines.len()
        invariant
            1 <= i,
            lines.len() <= u32::MAX,
            i <= lines.len() || (lines.len() == 0 && i == 1),
            errors < i,
            checked(lines.deep_view(), files.deep_view(), i as nat) == Ok::<
                (Seq<Seq<char>>, nat),
                CsvError,
            >((report.deep_view(), errors as nat)),
        decreases lines.len() - i,
    {
        let line = lines[i].as_str();
        let number = (i + 1) as u32;
        let record = match parse_record(line, number) {
            Ok(record) => record,
            Err(error) => {
                proof {
                    lemma_check_stays_failed(
                        lines.deep_view(),
                        files.deep_view(),
                        (i + 1) as nat,
                        lines.len() as nat,
                    );
                }
                return Err(error);
            },
        };
        let ghost earlier = report.deep_view();
        if is_wide(line) {
            report.push(display_wide(number));
            assert(report.deep_view() =~= earlier.push(wide_line(number)));
        }
        let ghost warned = report.deep_view();
        let origin_is_file = is_listed(files, record.0.as_str());
        let name_is_file = is_listed(files, record.1.as_str());
        let shown = check_input_errors(
            record.0.as_str(),
            record.1.as_str(),
            origin_is_file,
            name_is_file,
            &mut errors,
        );
        report.push(shown);
        assert(report.deep_view() =~= warned.push(
            status_line(record.0@, record.1@, status_of(origin_is_file, name_is_file)),
        ));
        i += 1;
    }
    let count = if lines.len() == 0 {
        0
    } else {
        lines.len() - 1
    };
    let mut found = String::from_str("\nEntries found: ");
    found.append(decimal_string(count as u64).as_str());
    let ghost before = report.deep_view();
    report.push(found);
    assert(report.deep_view() =~= before.push(entries_line(entries_found(lines.len() as nat))));
    Ok((report, errors))
}

/// Once a line holds no record, more lines do not mend the check.
pub proof fn lemma_check_stays_failed(
    lines: Seq<Seq<char>>,
    files: Seq<Seq<char>>,
    failed: nat,
    upto: nat,
)
    requires
        failed <= upto,
        checked(lines, files, failed) is Err,
    ensures
        checked(lines, files, upto) == checked(lines, files, failed),
    decreases upto,
{
    if failed < upto {
        lemma_check_stays_failed(lines, files, failed, (upto - 1) as nat);
    }
}

/// Previews a mapping file, given as its lines, against the disk, given as
/// the paths that name a file: the lines to show. Nothing is renamed, and
/// errors in the records do not stop the preview; only a line that holds no
/// record does.
pub fn dry_run(lines: &Vec<String>, files: &Vec<String>) -> (shown: Result<Vec<String>, CsvError>)
    requires
        lines.len() <= u32::MAX,
    ensures
        preview_text(shown) == preview(lines.deep_view(), files.deep_view()),
{
    match check_csv(lines, files) {
        Err(error) => Err(error),
        Ok((mut report, errors)) => {
            if errors > 0 {
                let ghost before = report.deep_view();
                let mut rest = display_errors(errors);
                let ghost added = rest.deep_view();
                report.append(&mut rest);
                assert(report.deep_view() =~= before + added);
            }
            Ok(report)
        },
    }
}

} // verus!
