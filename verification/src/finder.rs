//! Which of the paths that a search came across are listed: those that end as
//! a sequence file does, or as the caller asks.

use crate::paths::NameError;
use crate::text::{decimal, decimal_string, ends_with};
use crate::writer::{path_sorted, sorted_from, table, table_text, write_to_csv};
use vstd::prelude::*;
use vstd::string::*;

verus! {

/// Whether `path` ends as a compressed sequence file does.
pub open spec fn is_fastq(path: Seq<char>) -> bool {
    ||| ".fastq.gz"@.is_suffix_of(path)
    ||| ".fq.gz"@.is_suffix_of(path)
    ||| "fastq.gzip"@.is_suffix_of(path)
    ||| "fq.gzip"@.is_suffix_of(path)
}

/// Whether `path` is listed when files of `ext` are looked for: with `fastq`
/// the compressed sequence files, else the paths that end in `ext`.
pub open spec fn is_wanted(path: Seq<char>, ext: Seq<char>) -> bool {
    if ext == "fastq"@ {
        is_fastq(path)
    } else {
        ext.is_suffix_of(path)
    }
}

/// The paths among `walked` that are listed when files of `ext` are looked
/// for, in the order in which they were come across.
pub open spec fn wanted_among(walked: Seq<Seq<char>>, ext: Seq<char>) -> Seq<Seq<char>> {
    walked.filter(|path: Seq<char>| is_wanted(path, ext))
}

/// The line that tells how many files were found.
pub open spec fn found_line(count: nat) -> Seq<char> {
    "Found "@ + decimal(count) + " files"@
}

/// Adds `files` to `entries` where it ends as a compressed sequence file does.
pub fn match_fastq(files: &str, entries: &mut Vec<String>)
    ensures
        final(entries).deep_view() == if is_fastq(files@) {
            old(entries).deep_view().push(files@)
        } else {
            old(entries).deep_view()
        },
{
    if ends_with(files, ".fastq.gz") || ends_with(files, ".fq.gz") || ends_with(
        files,
        "fastq.gzip",
    ) || ends_with(files, "fq.gzip") {
        entries.push(String::from_str(files));
        assert(entries.deep_view() =~= old(entries).deep_view().push(files@));
    }
}

/// Adds `files` to `entries` where it ends in `ext`.
pub fn match_any(files: &str, ext: &str, entries: &mut Vec<String>)
    ensures
        final(entries).deep_view() == if ext@.is_suffix_of(files@) {
            old(entries).deep_view().push(files@)
        } else {
            old(entries).deep_view()
        },
{
    if ends_with(files, ext) {
        entries.push(String::from_str(files));
        assert(entries.deep_view() =~= old(entries).deep_view().push(files@));
    }
}

/// Whether two texts are the same.
fn same_text(left: &str, right: &str) -> (same: bool)
    ensures
        same == (left@ == right@),
{
    String::from_str(left) == String::from_str(right)
}

/// Picks the paths to list out of those that a search came across, in the
/// order in which it came across them.
pub fn select_entries(walked: &Vec<String>, ext: &str) -> (entries: Vec<String>)
    ensures
        entries.deep_view() == wanted_among(walked.deep_view(), ext@),
{
    let fastq = same_text(ext, "fastq");
    let mut entries: Vec<String> = Vec::new();
    let mut i: usize = 0;
    assert(walked.deep_view().take(0) =~= Seq::<Seq<char>>::empty());
    assert(entries.deep_view() =~= wanted_among(walked.deep_view().take(0), ext@));
    while i < walked.len()
        invariant
            i <= walked.len(),
            fastq == (ext@ == "fastq"@),
            entries.deep_view() == wanted_among(walked.deep_view().take(i as int), ext@),
        decreases walked.len() - i,
    {
        proof {
            let wanted = |path: Seq<char>| is_wanted(path, ext@);
            let seen = walked.deep_view().take(i as int);
            assert(walked.deep_view().take(i + 1) =~= seen.push(walked.deep_view()[i as int]));
            Seq::lemma_filter_push(seen, walked.deep_view()[i as int], wanted);
        }
        if fastq {
            match_fastq(walked[i].as_str(), &mut entries);
        } else {
            match_any(walked[i].as_str(), ext, &mut entries);
        }
        i += 1;
    }
    assert(walked.deep_view().take(walked.len() as int) =~= walked.deep_view());
    entries
}

/// The paths given on the command line, as they are.
pub fn convert_wcard_to_path(files: &Vec<String>) -> (entries: Vec<String>)
    ensures
        entries.deep_view() == files.deep_view(),
{
    let mut entries: Vec<String> = Vec::new();
    let mut i: usize = 0;
    while i < files.len()
        invariant
            i <= files.len(),
            entries.len() == i,
            forall|j: int| 0 <= j < i ==> entries.deep_view()[j] == files.deep_view()[j],
        decreases files.len() - i,
    {
        let ghost before = entries.deep_view();
        entries.push(String::from_str(files[i].as_str()));
        assert forall|j: int| 0 <= j < i + 1 implies entries.deep_view()[j]
            == files.deep_view()[j] by {
            if j < i {
                assert(entries.deep_view()[j] == before[j]);
            }
        }
        i += 1;
    }
    assert(entries.deep_view() =~= files.deep_view());
    entries
}

/// Writes the line that tells how many files were found.
pub fn display_found(count: usize) -> (line: String)
    ensures
        line@ == found_line(count as nat),
{
    let mut line = String::from_str("Found ");
    line.append(decimal_string(count as u64).as_str());
    line.append(" files");
    line
}

/// What a search comes to: the paths that are listed, in the order of the
/// paths, the line that tells how many they are, and the table of them, or
/// the reason why there is no table.
pub struct Listing {
    pub entries: Vec<String>,
    pub found: String,
    pub table: Result<Vec<String>, NameError>,
}

/// Whether `listing` lists `wanted`: the same paths in the order of the
/// paths, their count, and their table, or no table where one of them ends in
/// no file name.
pub open spec fn lists(listing: Listing, wanted: Seq<Seq<char>>, bpa: bool) -> bool {
    &&& listing.entries.deep_view() == path_sorted(wanted)
    &&& sorted_from(listing.entries.deep_view(), wanted)
    &&& listing.found@ == found_line(wanted.len())
    &&& table_text(listing.table) == table(listing.entries.deep_view(), bpa)
}

/// Lists the files among the paths that a search of a directory came across:
/// those that `select_entries` picks for `ext`.
pub fn process_input_dir(walked: &Vec<String>, ext: &str, bpa: bool) -> (listing: Listing)
    ensures
        lists(listing, wanted_among(walked.deep_view(), ext@), bpa),
{
    let mut entries = select_entries(walked, ext);
    let found = display_found(entries.len());
    let table = write_to_csv(&mut entries, bpa);
    Listing { entries, found, table }
}

/// Lists the files that were given on the command line.
pub fn process_input_wcard(files: &Vec<String>, bpa: bool) -> (listing: Listing)
    ensures
        lists(listing, files.deep_view(), bpa),
{
    let mut entries = convert_wcard_to_path(files);
    let found = display_found(entries.len());
    let table = write_to_csv(&mut entries, bpa);
    Listing { entries, found, table }
}

} // verus!
