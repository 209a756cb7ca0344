//! The mapping file: a header line, then one record per line with the path of
//! a file and the name wanted for it, parted by commas.

use crate::paths::NameError;
use crate::resolver::{anchored, construct_new_names};
use crate::text::{chars_of, decimal, decimal_string, slice};
use vstd::prelude::*;
use vstd::string::*;

verus! {

/// Whether `c` is white space: what `char::is_whitespace` returns for it.
pub uninterp spec fn white_space(c: char) -> bool;

/// `char::is_whitespace` answers as `white_space` names it.
pub assume_specification[ char::is_whitespace ](c: char) -> (blank: bool)
    ensures
        blank == white_space(c),
;

/// Why a mapping file cannot be read.
#[derive(Clone, Copy, Debug, PartialEq, Eq, Structural)]
pub enum CsvError {
    /// The line has a single column, or its second column is empty.
    MissingColumn { line: u32 },
    /// The record of the line gives no destination.
    BadName { line: u32, error: NameError },
}

/// `text` without the white space it begins with.
pub open spec fn trim_start_of(text: Seq<char>) -> Seq<char>
    decreases text.len(),
{
    if text.len() > 0 && white_space(text[0]) {
        trim_start_of(text.drop_first())
    } else {
        text
    }
}

/// `text` without the white space it ends in.
pub open spec fn trim_end_of(text: Seq<char>) -> Seq<char>
    decreases text.len(),
{
    if text.len() > 0 && white_space(text.last()) {
        trim_end_of(text.drop_last())
    } else {
        text
    }
}

/// `text` without the white space around it.
pub open spec fn trimmed(text: Seq<char>) -> Seq<char> {
    trim_end_of(trim_start_of(text))
}

/// The fields of a line, each followed by a comma.
pub open spec fn with_commas(fields: Seq<Seq<char>>) -> Seq<char>
    decreases fields.len(),
{
    if fields.len() == 0 {
        Seq::empty()
    } else {
        with_commas(fields.drop_last()) + fields.last() + seq![',']
    }
}

/// Whether `fields` are the columns of `line`: put together with commas
/// between them they give the line, and none of them holds a comma.
pub open spec fn columns_of(line: Seq<char>, fields: Seq<Seq<char>>) -> bool {
    &&& fields.len() > 0
    &&& with_commas(fields.drop_last()) + fields.last() == line
    &&& forall|i: int| 0 <= i < fields.len() ==> !(#[trigger] fields[i]).contains(',')
}

/// Whether `fields` are the columns of `line`, each without the white space
/// around it.
pub open spec fn trimmed_columns_of(line: Seq<char>, fields: Seq<Seq<char>>) -> bool {
    exists|raw: Seq<Seq<char>>|
        {
            &&& #[trigger] columns_of(line, raw)
            &&& raw.len() == fields.len()
            &&& forall|i: int| 0 <= i < raw.len() ==> fields[i] == trimmed(#[trigger] raw[i])
        }
}

/// The columns of `line`, each without the white space around it. A line has
/// one such sequence only.
pub open spec fn columns(line: Seq<char>) -> Seq<Seq<char>> {
    choose|fields: Seq<Seq<char>>| trimmed_columns_of(line, fields)
}

/// Whether a record has the two columns it needs.
pub open spec fn has_two_columns(fields: Seq<Seq<char>>) -> bool {
    fields.len() >= 2 && fields[1].len() > 0
}

/// Takes the white space around `text` away.
pub fn trim(text: &str) -> (bare: String)
    ensures
        bare@ == trimmed(text@),
{
    let chars = chars_of(text);
    let total = chars.len();
    let mut from: usize = 0;
    assert(text@.subrange(0, total as int) =~= text@);
    while from < total && chars[from].is_whitespace()
        invariant
            chars@ == text@,
            total == chars.len(),
            from <= total,
            trim_start_of(text@) == trim_start_of(text@.subrange(from as int, total as int)),
        decreases total - from,
    {
        assert(text@.subrange(from as int, total as int).drop_first() =~= text@.subrange(
            from + 1,
            total as int,
        ));
        from += 1;
    }
    let ghost head = text@.subrange(from as int, total as int);
    assert(trim_start_of(text@) == head);
    let mut to: usize = total;
    while to > from && chars[to - 1].is_whitespace()
        invariant
            chars@ == text@,
            total == chars.len(),
            from <= to <= total,
            trim_end_of(head) == trim_end_of(text@.subrange(from as int, to as int)),
        decreases to,
    {
        assert(text@.subrange(from as int, to as int).drop_last() =~= text@.subrange(
            from as int,
            to - 1,
        ));
        to -= 1;
    }
    slice(text, from, to)
}

/// Parts a line at its commas.
pub fn split_commas(line: &str) -> (fields: Vec<String>)
    ensures
        columns_of(line@, fields.deep_view()),
{
    let chars = chars_of(line);
    let total = chars.len();
    let mut fields: Vec<String> = Vec::new();
    let mut from: usize = 0;
    let mut at: usize = 0;
    while at < total
        invariant
            chars@ == line@,
            total == chars.len(),
            from <= at <= total,
            with_commas(fields.deep_view()) == line@.subrange(0, from as int),
            forall|i: int|
                0 <= i < fields.len() ==> !(#[trigger] fields.deep_view()[i]).contains(','),
            forall|j: int| from <= j < at ==> line@[j] != ',',
        decreases total - at,
    {
        if chars[at] == ',' {
            let field = slice(line, from, at);
            let ghost before = fields.deep_view();
            fields.push(field);
            proof {
                let now = fields.deep_view();
                assert(now =~= before.push(line@.subrange(from as int, at as int)));
                assert(now.drop_last() =~= before);
                assert(with_commas(now) =~= line@.subrange(0, at + 1));
                assert forall|i: int| 0 <= i < now.len() implies !(#[trigger] now[i]).contains(
                    ',',
                ) by {
                    if i < before.len() {
                        assert(now[i] == before[i]);
                    }
                }
            }
            from = at + 1;
        }
        at += 1;
    }
    let field = slice(line, from, total);
    let ghost before = fields.deep_view();
    fields.push(field);
    proof {
        let now = fields.deep_view();
        assert(now =~= before.push(line@.subrange(from as int, total as int)));
        assert(now.drop_last() =~= before);
        assert(with_commas(before) + now.last() =~= line@);
        assert forall|i: int| 0 <= i < now.len() implies !(#[trigger] now[i]).contains(',') by {
            if i < before.len() {
                assert(now[i] == before[i]);
            }
        }
    }
    fields
}

/// The columns of one line of the mapping file, each without the white space
/// around it. A record needs two columns, the second not empty; what a line
/// holds beyond the second is kept and not looked at.
pub fn split_csv_lines(lines: &str, lcounts: u32) -> (found: Result<Vec<String>, CsvError>)
    ensures
        trimmed_columns_of(lines@, columns(lines@)),
        match found {
            Ok(fields) => has_two_columns(columns(lines@)) && fields.deep_view() == columns(
                lines@,
            ),
            Err(error) => !has_two_columns(columns(lines@)) && error == (CsvError::MissingColumn {
                line: lcounts,
            }),
        },
{
    let raw = split_commas(lines);
    let mut files: Vec<String> = Vec::new();
    let mut i: usize = 0;
    while i < raw.len()
        invariant
            i <= raw.len(),
            files.len() == i,
            forall|j: int| 0 <= j < i ==> files.deep_view()[j] == trimmed(raw.deep_view()[j]),
        decreases raw.len() - i,
    {
        let ghost before = files.deep_view();
        files.push(trim(raw[i].as_str()));
        proof {
            assert forall|j: int| 0 <= j < i + 1 implies files.deep_view()[j] == trimmed(
                raw.deep_view()[j],
            ) by {
                if j < i {
                    assert(files.deep_view()[j] == before[j]);
                }
            }
        }
        i += 1;
    }
    proof {
        assert(trimmed_columns_of(lines@, files.deep_view())) by {
            assert(columns_of(lines@, raw.deep_view()));
        }
        lemma_trimmed_columns_unique(lines@, files.deep_view(), columns(lines@));
    }
    if files.len() < 2 || files[1].as_str().unicode_len() == 0 {
        return Err(CsvError::MissingColumn { line: lcounts });
    }
    Ok(files)
}

/// A line has one sequence of trimmed columns only.
pub proof fn lemma_trimmed_columns_unique(
    line: Seq<char>,
    left: Seq<Seq<char>>,
    right: Seq<Seq<char>>,
)
    requires
        trimmed_columns_of(line, left),
        trimmed_columns_of(line, right),
    ensures
        left == right,
{
    let raw_left = choose|raw: Seq<Seq<char>>|
        {
            &&& #[trigger] columns_of(line, raw)
            &&& raw.len() == left.len()
            &&& forall|i: int| 0 <= i < raw.len() ==> left[i] == trimmed(#[trigger] raw[i])
        };
    let raw_right = choose|raw: Seq<Seq<char>>|
        {
            &&& #[trigger] columns_of(line, raw)
            &&& raw.len() == right.len()
            &&& forall|i: int| 0 <= i < raw.len() ==> right[i] == trimmed(#[trigger] raw[i])
        };
    lemma_columns_unique(line, raw_left, raw_right);
    assert forall|i: int| 0 <= i < left.len() implies left[i] == right[i] by {
        assert(left[i] == trimmed(raw_left[i]));
        assert(right[i] == trimmed(raw_right[i]));
    }
    assert(left =~= right);
}

/// A line has one way only of being parted at its commas.
pub proof fn lemma_columns_unique(line: Seq<char>, left: Seq<Seq<char>>, right: Seq<Seq<char>>)
    requires
        columns_of(line, left),
        columns_of(line, right),
    ensures
        left == right,
    decreases left.len(),
{
    let a = left.last();
    let b = right.last();
    let head_a = with_commas(left.drop_last());
    let head_b = with_commas(right.drop_last());
    assert(head_a + a == line);
    assert(head_b + b == line);
    assert(line.len() == head_a.len() + a.len());
    assert(line.len() == head_b.len() + b.len());
    if a.len() < b.len() {
        // the comma that ends `head_a` would lie inside `b`
        assert(left.len() > 1) by {
            if left.len() == 1 {
                assert(left.drop_last().len() == 0);
                assert(head_a.len() == 0);
            }
        }
        let k = head_a.len() - 1;
        assert(head_a[k] == ',');
        assert((head_a + a)[k] == ',');
        assert((head_b + b)[k] == b[k - head_b.len()]);
        assert(b.contains(b[k - head_b.len()]));
        assert(false);
    }
    if b.len() < a.len() {
        assert(right.len() > 1) by {
            if right.len() == 1 {
                assert(right.drop_last().len() == 0);
                assert(head_b.len() == 0);
            }
        }
        let k = head_b.len() - 1;
        assert(head_b[k] == ',');
        assert((head_b + b)[k] == ',');
        assert((head_a + a)[k] == a[k - head_a.len()]);
        assert(a.contains(a[k - head_a.len()]));
        assert(false);
    }
    assert(a =~= b) by {
        assert forall|i: int| 0 <= i < a.len() implies a[i] == b[i] by {
            assert((head_a + a)[head_a.len() + i] == a[i]);
            assert((head_b + b)[head_b.len() + i] == b[i]);
        }
    }
    assert(head_a =~= head_b) by {
        assert forall|i: int| 0 <= i < head_a.len() implies head_a[i] == head_b[i] by {
            assert((head_a + a)[i] == head_a[i]);
            assert((head_b + b)[i] == head_b[i]);
        }
    }
    if left.len() == 1 {
        assert(head_a.len() == 0);
        if right.len() > 1 {
            assert(head_b.len() > 0);
        }
        assert(left =~= right);
    } else {
        assert(head_a.len() > 0);
        assert(right.len() > 1) by {
            if right.len() == 1 {
                assert(right.drop_last().len() == 0);
                assert(head_b.len() == 0);
            }
        }
        let rest_a = left.drop_last();
        let rest_b = right.drop_last();
        let line_rest = head_a.drop_last();
        assert(with_commas(rest_a.drop_last()) + rest_a.last() =~= line_rest);
        assert(with_commas(rest_b.drop_last()) + rest_b.last() =~= line_rest);
        assert(columns_of(line_rest, rest_a));
        assert(columns_of(line_rest, rest_b));
        lemma_columns_unique(line_rest, rest_a, rest_b);
        assert(left =~= rest_a.push(a));
        assert(right =~= rest_b.push(b));
    }
}

/// A record with its paths as plain text.
pub open spec fn record_text(record: Result<(String, String), CsvError>) -> Result<
    (Seq<char>, Seq<char>),
    CsvError,
> {
    match record {
        Ok(pair) => Ok((pair.0@, pair.1@)),
        Err(error) => Err(error),
    }
}

/// Records with their paths as plain text.
pub open spec fn records_text(records: Result<Vec<(String, String)>, CsvError>) -> Result<
    Seq<(Seq<char>, Seq<char>)>,
    CsvError,
> {
    match records {
        Ok(pairs) => Ok(pairs.deep_view()),
        Err(error) => Err(error),
    }
}

/// The record that line number `number` of the mapping file holds: the path
/// of its first column, and the name of its second column anchored in the
/// directory of that path.
pub open spec fn record_of(line: Seq<char>, number: u32) -> Result<
    (Seq<char>, Seq<char>),
    CsvError,
> {
    let fields = columns(line);
    if !has_two_columns(fields) {
        Err(CsvError::MissingColumn { line: number })
    } else {
        match anchored(fields[0], fields[1]) {
            Ok(destination) => Ok((fields[0], destination)),
            Err(error) => Err(CsvError::BadName { line: number, error }),
        }
    }
}

/// The records of the first `upto` lines of a mapping file, or the error of
/// the first line among them that holds none. The first line is the header
/// and holds no record; lines count from 1.
pub open spec fn records_of(lines: Seq<Seq<char>>, upto: nat) -> Result<
    Seq<(Seq<char>, Seq<char>)>,
    CsvError,
>
    decreases upto,
{
    if upto <= 1 {
        Ok(Seq::empty())
    } else {
        match records_of(lines, (upto - 1) as nat) {
            Err(error) => Err(error),
            Ok(records) => match record_of(lines[upto - 1], upto as u32) {
                Ok(record) => Ok(records.push(record)),
                Err(error) => Err(error),
            },
        }
    }
}

/// The line that warns of a record with more than two columns.
pub open spec fn wide_line(number: u32) -> Seq<char> {
    "\x1b[0;33mLINE "@ + decimal(number as nat)
        + " HAS MORE THAN TWO COLUMNS.ASSUMING THE FIRST TWO ARE THE FILENAMES.\x1b[0m"@
}

/// What is said of a mapping file that cannot be read.
pub open spec fn error_message(error: CsvError) -> Seq<char> {
    match error {
        CsvError::MissingColumn { line } => "INVALID CSV INPUT! ONLY ONE COLUMN FOUND IN LINE "@
            + decimal(line as nat) + "."@,
        CsvError::BadName { line, error } => "INVALID CSV INPUT! NO FILE NAME TO GIVE IN LINE "@
            + decimal(line as nat) + "."@,
    }
}

/// Reads the record of one line of the mapping file.
pub fn parse_record(line: &str, lcounts: u32) -> (record: Result<(String, String), CsvError>)
    ensures
        record_text(record) == record_of(line@, lcounts),
{
    let files = match split_csv_lines(line, lcounts) {
        Ok(files) => files,
        Err(error) => {
            return Err(error);
        },
    };
    let old_names = String::from_str(files[0].as_str());
    match construct_new_names(old_names.as_str(), files[1].as_str()) {
        Ok(new_names) => Ok((old_names, new_names)),
        Err(error) => Err(CsvError::BadName { line: lcounts, error }),
    }
}

/// Reads the records of a mapping file, given as its lines: each the path of
/// a file with the path it is to be renamed to, in the order of the file. The
/// first line is the header. Stops at the first line that holds no record.
pub fn parse_csv(lines: &Vec<String>) -> (records: Result<Vec<(String, String)>, CsvError>)
    requires
        lines.len() <= u32::MAX,
    ensures
        records_text(records) == records_of(lines.deep_view(), lines.len() as nat),
{
    let mut filenames: Vec<(String, String)> = Vec::new();
    let mut i: usize = 1;
    assert(filenames.deep_view() =~= Seq::<(Seq<char>, Seq<char>)>::empty());
    while i < lines.len()
        invariant
            1 <= i,
            lines.len() <= u32::MAX,
            i <= lines.len() || (lines.len() == 0 && i == 1),
            records_of(lines.deep_view(), i as nat) == Ok::<Seq<(Seq<char>, Seq<char>)>, CsvError>(
                filenames.deep_view(),
            ),
        decreases lines.len() - i,
    {
        let ghost before = filenames.deep_view();
        match parse_record(lines[i].as_str(), (i + 1) as u32) {
            Ok(record) => {
                filenames.push(record);
                assert(filenames.deep_view() =~= before.push((record.0@, record.1@)));
            },
            Err(error) => {
                proof {
                    lemma_records_stay_failed(lines.deep_view(), (i + 1) as nat, lines.len() as nat);
                }
                return Err(error);
            },
        }
        i += 1;
    }
    Ok(filenames)
}

/// Once a line holds no record, more lines do not mend it.
pub proof fn lemma_records_stay_failed(lines: Seq<Seq<char>>, failed: nat, upto: nat)
    requires
        failed <= upto,
        records_of(lines, failed) is Err,
    ensures
        records_of(lines, upto) == records_of(lines, failed),
    decreases upto,
{
    if failed < upto {
        lemma_records_stay_failed(lines, failed, (upto - 1) as nat);
    }
}

/// Whether a line has more than two columns.
pub fn is_wide(line: &str) -> (wide: bool)
    ensures
        trimmed_columns_of(line@, columns(line@)),
        wide == (columns(line@).len() > 2),
{
    let raw = split_commas(line);
    proof {
        let bare = Seq::new(raw.deep_view().len(), |i: int| trimmed(raw.deep_view()[i]));
        assert(trimmed_columns_of(line@, bare)) by {
            assert(columns_of(line@, raw.deep_view()));
        }
        lemma_trimmed_columns_unique(line@, bare, columns(line@));
    }
    raw.len() > 2
}

/// Writes the line that warns of a record with more than two columns.
pub fn display_wide(lcounts: u32) -> (line: String)
    ensures
        line@ == wide_line(lcounts),
{
    let mut line = String::from_str("\x1b[0;33mLINE ");
    line.append(decimal_string(lcounts as u64).as_str());
    line.append(" HAS MORE THAN TWO COLUMNS.ASSUMING THE FIRST TWO ARE THE FILENAMES.\x1b[0m");
    line
}

/// Writes what is said of a mapping file that cannot be read.
pub fn display_error(error: CsvError) -> (message: String)
    ensures
        message@ == error_message(error),
{
    match error {
        CsvError::MissingColumn { line } => {
            let mut message = String::from_str("INVALID CSV INPUT! ONLY ONE COLUMN FOUND IN LINE ");
            message.append(decimal_string(line as u64).as_str());
            message.append(".");
            message
        },
        CsvError::BadName { line, error } => {
            let mut message = String::from_str("INVALID CSV INPUT! NO FILE NAME TO GIVE IN LINE ");
            message.append(decimal_string(line as u64).as_str());
            message.append(".");
            message
        },
    }
}

/// What to do once the records were checked against the disk.
#[derive(Clone, Copy, Debug, PartialEq, Eq, Structural)]
pub enum InputAction {
    /// Nothing stands in the way.
    Proceed,
    /// Show the errors, and go on: nothing is renamed in a preview.
    ShowErrors,
    /// Show the errors, and ask the operator whether to go on.
    ShowErrorsAndAsk,
}

/// What follows from the count of errors, in a preview and before renaming.
pub open spec fn input_action(errors: u32, dryrun: bool) -> InputAction {
    if errors == 0 {
        InputAction::Proceed
    } else if dryrun {
        InputAction::ShowErrors
    } else {
        InputAction::ShowErrorsAndAsk
    }
}

/// Decides what to do once the records were checked against the disk.
pub fn check_input(errors: u32, dryrun: bool) -> (action: InputAction)
    ensures
        action == input_action(errors, dryrun),
{
    if errors > 0 {
        if !dryrun {
            InputAction::ShowErrorsAndAsk
        } else {
            InputAction::ShowErrors
        }
    } else {
        InputAction::Proceed
    }
}

/// Whether the operator wants to go on in spite of the errors.
#[derive(Clone, Copy, Debug, PartialEq, Eq, Structural)]
pub enum Confirmation {
    /// Go on.
    Yes,
    /// Stop.
    No,
}

/// The answer that a key stands for, if it stands for one.
pub open spec fn confirmation_of(key: u8) -> Option<Confirmation> {
    if key == 0x79 {
        Some(Confirmation::Yes)
    } else if key == 0x6e {
        Some(Confirmation::No)
    } else {
        None
    }
}

/// The question put to the operator where records stand against the disk.
pub fn confirmation_question() -> (line: &'static str)
    ensures
        line@ == "\nWould you like to continue: [y]es/[n]o? "@,
{
    "\nWould you like to continue: [y]es/[n]o? "
}

/// The line for a key that stands for no answer.
pub fn incorrect_input_line() -> (line: &'static str)
    ensures
        line@ == "Incorrect input! Please, try again..."@,
{
    "Incorrect input! Please, try again..."
}

/// Reads one key of the operator: `y` or `n`. Any other key stands for
/// nothing, and the caller asks again.
pub fn get_user_input_err(key: u8) -> (answer: Option<Confirmation>)
    ensures
        answer == confirmation_of(key),
{
    if key == 0x79 {
        Some(Confirmation::Yes)
    } else if key == 0x6e {
        Some(Confirmation::No)
    } else {
        None
    }
}

/// Whether some entry of `mapping` is for `origin`.
pub open spec fn has_origin(mapping: Seq<(Seq<char>, Seq<char>)>, origin: Seq<char>) -> bool {
    exists|i: int| 0 <= i < mapping.len() && (#[trigger] mapping[i]).0 == origin
}

/// Whether `at` is the place of the first entry of `mapping` for `origin`.
pub open spec fn first_for(mapping: Seq<(Seq<char>, Seq<char>)>, origin: Seq<char>, at: int)
    -> bool {
    &&& 0 <= at < mapping.len()
    &&& mapping[at].0 == origin
    &&& forall|j: int| 0 <= j < at ==> (#[trigger] mapping[j]).0 != origin
}

/// Whether no two entries of `mapping` are for the same origin.
pub open spec fn unique_origins(mapping: Seq<(Seq<char>, Seq<char>)>) -> bool {
    forall|i: int, j: int|
        0 <= i < j < mapping.len() ==> (#[trigger] mapping[i]).0 != (#[trigger] mapping[j]).0
}

/// `mapping` with `destination` for `origin`: in place of the destination it
/// had for that origin, or as a new last entry where it had none.
pub open spec fn inserted(
    mapping: Seq<(Seq<char>, Seq<char>)>,
    origin: Seq<char>,
    destination: Seq<char>,
) -> Seq<(Seq<char>, Seq<char>)> {
    if has_origin(mapping, origin) {
        mapping.update(choose|at: int| first_for(mapping, origin, at), (origin, destination))
    } else {
        mapping.push((origin, destination))
    }
}

/// The mapping that records make: one entry for each origin, in the order in
/// which the origins first come, each with the destination of its last
/// record.
pub open spec fn mapping_of(records: Seq<(Seq<char>, Seq<char>)>) -> Seq<(Seq<char>, Seq<char>)>
    decreases records.len(),
{
    if records.len() == 0 {
        Seq::empty()
    } else {
        inserted(mapping_of(records.drop_last()), records.last().0, records.last().1)
    }
}

/// Gives `origin` the destination `destination` in `mapping`: in place of the
/// one it had, or as a new last entry.
pub fn insert_record(mapping: &mut Vec<(String, String)>, origin: &str, destination: &str)
    ensures
        final(mapping).deep_view() == inserted(old(mapping).deep_view(), origin@, destination@),
        unique_origins(old(mapping).deep_view()) ==> unique_origins(final(mapping).deep_view()),
{
    let wanted = String::from_str(origin);
    let ghost before = mapping.deep_view();
    let mut at: usize = 0;
    while at < mapping.len()
        invariant
            at <= mapping.len(),
            wanted@ == origin@,
            mapping.deep_view() == before,
            before == old(mapping).deep_view(),
            forall|j: int| 0 <= j < at ==> (#[trigger] before[j]).0 != origin@,
        decreases mapping.len() - at,
    {
        if mapping[at].0 == wanted {
            proof {
                assert(before[at as int].0 == origin@);
                assert(first_for(before, origin@, at as int));
                let chosen = choose|k: int| first_for(before, origin@, k);
                assert(first_for(before, origin@, chosen));
                if chosen < at {
                    assert(before[chosen].0 != origin@);
                }
                if at < chosen {
                    assert(before[at as int].0 != origin@);
                }
            }
            mapping.set(at, (String::from_str(origin), String::from_str(destination)));
            proof {
                let now = mapping.deep_view();
                assert(now =~= before.update(at as int, (origin@, destination@)));
                if unique_origins(before) {
                    assert forall|i: int, j: int| 0 <= i < j < now.len() implies (#[trigger] now[i]).0
                        != (#[trigger] now[j]).0 by {
                        assert(before[i].0 != before[j].0);
                    }
                }
            }
            return ;
        }
        at += 1;
    }
    mapping.push((String::from_str(origin), String::from_str(destination)));
    proof {
        let now = mapping.deep_view();
        assert(now =~= before.push((origin@, destination@)));
        assert(!has_origin(before, origin@));
        if unique_origins(before) {
            assert forall|i: int, j: int| 0 <= i < j < now.len() implies (#[trigger] now[i]).0 != (
            #[trigger] now[j]).0 by {
                if j < before.len() {
                    assert(before[i].0 != before[j].0);
                } else {
                    assert(before[i].0 != origin@);
                }
            }
        }
    }
}

/// Makes the mapping out of the records of a mapping file: one entry for each
/// origin, with the destination of the last record for it.
pub fn build_mapping(records: &Vec<(String, String)>) -> (mapping: Vec<(String, String)>)
    ensures
        mapping.deep_view() == mapping_of(records.deep_view()),
        unique_origins(mapping.deep_view()),
{
    let mut mapping: Vec<(String, String)> = Vec::new();
    let mut i: usize = 0;
    assert(records.deep_view().take(0) =~= Seq::<(Seq<char>, Seq<char>)>::empty());
    assert(mapping.deep_view() =~= mapping_of(records.deep_view().take(0)));
    while i < records.len()
        invariant
            i <= records.len(),
            mapping.deep_view() == mapping_of(records.deep_view().take(i as int)),
            unique_origins(mapping.deep_view()),
        decreases records.len() - i,
    {
        proof {
            let seen = records.deep_view().take(i + 1);
            assert(seen.drop_last() =~= records.deep_view().take(i as int));
            assert(seen.last() == records.deep_view()[i as int]);
        }
        insert_record(&mut mapping, records[i].0.as_str(), records[i].1.as_str());
        i += 1;
    }
    assert(records.deep_view().take(records.len() as int) =~= records.deep_view());
    mapping
}

} // verus!
