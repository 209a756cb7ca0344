//! The list of sequence files as a table of records: one line per file with
//! its path, its name and the two ids that a name of seven parts carries.

use crate::paths::{file_name, path_file_name, NameError};
use crate::writer::{
    ids, lacks_file_name, path_sorted, sort_paths, sorted_from, split_ids, underscores,
};
use vstd::prelude::*;
use vstd::string::*;

verus! {

/// The two ids of a file.
#[derive(Debug)]
pub struct Id {
    pub file_id: String,
    pub read_id: String,
}

/// The two ids that are shown for the file name `fnames`: its file id and its
/// read id where it has seven parts between its underscores, `N/A` twice where
/// it has not.
pub open spec fn shown_ids(fnames: Seq<char>) -> (Seq<char>, Seq<char>) {
    if underscores(fnames) == 6 {
        ids(fnames)
    } else {
        ("N/A"@, "N/A"@)
    }
}

/// The first line of the table.
pub open spec fn records_header() -> Seq<char> {
    "full_path,filenames,id,read_id"@
}

/// The path of the file that the table is saved in.
pub open spec fn records_name(outdir: Seq<char>) -> Seq<char> {
    outdir + "/fastq_records.csv"@
}

/// The line that tells where the table was saved.
pub open spec fn done_line(outdir: Seq<char>) -> Seq<char> {
    "Done! The result is saved as "@ + records_name(outdir)
}

/// The line of the table for the file at `path`, which ends in a file name.
pub open spec fn record(path: Seq<char>) -> Seq<char> {
    let name = path_file_name(path)->0;
    path + seq![','] + name + seq![','] + shown_ids(name).0 + seq![','] + shown_ids(name).1
}

/// The lines of the table for `paths`: the header, then the line of each path
/// in turn. There is no table where a path ends in no file name.
pub open spec fn records(paths: Seq<Seq<char>>) -> Result<Seq<Seq<char>>, NameError> {
    if lacks_file_name(paths) {
        Err(NameError::NoFileName)
    } else {
        Ok(seq![records_header()] + Seq::new(paths.len(), |i: int| record(paths[i])))
    }
}

/// The table of sequence files: where it is saved, what it holds, and the
/// line that tells of it.
pub struct Records {
    pub name: String,
    pub lines: Vec<String>,
    pub done: String,
}

impl Id {
    /// The ids of a file whose name carries none.
    pub fn new() -> (id: Id)
        ensures
            id.file_id@ == "N/A"@,
            id.read_id@ == "N/A"@,
    {
        Id { file_id: String::from_str("N/A"), read_id: String::from_str("N/A") }
    }

    /// The ids that the file name `fnames` carries, where it has seven parts
    /// between its underscores; `N/A` twice where it has not.
    pub fn split_file_names(fnames: &String) -> (id: Id)
        ensures
            (id.file_id@, id.read_id@) == shown_ids(fnames@),
    {
        let mut id = Id::new();
        match split_ids(fnames.as_str()) {
            Some((file_id, read_id)) => {
                id.file_id = file_id;
                id.read_id = read_id;
            },
            None => {},
        }
        id
    }
}

/// The table of the sequence files `recs`, to be saved in `outdir`: the
/// header, then one line per file in the order of the paths, which `recs` is
/// put in. `Err` where a path ends in no file name.
pub fn write_to_csv(recs: &mut Vec<String>, outdir: &str) -> (written: Result<Records, NameError>)
    ensures
        final(recs).deep_view() == path_sorted(old(recs).deep_view()),
        sorted_from(final(recs).deep_view(), old(recs).deep_view()),
        match written {
            Ok(table) => {
                &&& table.name@ == records_name(outdir@)
                &&& table.done@ == done_line(outdir@)
                &&& records(final(recs).deep_view()) == Ok::<Seq<Seq<char>>, NameError>(
                    table.lines.deep_view(),
                )
            },
            Err(error) => records(final(recs).deep_view()) == Err::<Seq<Seq<char>>, NameError>(
                error,
            ),
        },
{
    proof {
        reveal_strlit(",");
        assert(","@ =~= seq![',']);
    }
    let mut fname = String::from_str(outdir);
    fname.append("/fastq_records.csv");
    sort_paths(recs);
    let mut lines: Vec<String> = Vec::new();
    lines.push(String::from_str("full_path,filenames,id,read_id"));
    let mut i: usize = 0;
    while i < recs.len()
        invariant
            i <= recs.len(),
            lines.len() == i + 1,
            ","@ == seq![','],
            recs.deep_view() == path_sorted(old(recs).deep_view()),
            sorted_from(recs.deep_view(), old(recs).deep_view()),
            lines.deep_view()[0] == records_header(),
            forall|j: int| 0 <= j < i ==> path_file_name(#[trigger] recs.deep_view()[j]) is Some,
            forall|j: int|
                0 <= j < i ==> #[trigger] lines.deep_view()[j + 1] == record(recs.deep_view()[j]),
        decreases recs.len() - i,
    {
        let file = match file_name(recs[i].as_str()) {
            Some(file) => file,
            None => {
                assert(path_file_name(recs.deep_view()[i as int]) is None);
                return Err(NameError::NoFileName);
            },
        };
        let id = Id::split_file_names(&file);
        let mut line = String::from_str(recs[i].as_str());
        line.append(",");
        line.append(file.as_str());
        line.append(",");
        line.append(id.file_id.as_str());
        line.append(",");
        line.append(id.read_id.as_str());
        let ghost before = lines.deep_view();
        lines.push(line);
        proof {
            let path = recs.deep_view()[i as int];
            assert(path == recs@[i as int]@);
            assert(path_file_name(path) == Some(file@));
            assert(lines.deep_view()[i + 1] =~= record(path));
            assert forall|j: int| 0 <= j < i + 1 implies #[trigger] lines.deep_view()[j + 1]
                == record(recs.deep_view()[j]) by {
                if j < i {
                    assert(lines.deep_view()[j + 1] == before[j + 1]);
                }
            }
            assert(lines.deep_view()[0] == before[0]);
        }
        i += 1;
    }
    proof {
        let paths = recs.deep_view();
        assert(!lacks_file_name(paths));
        assert(lines.deep_view() =~= seq![records_header()] + Seq::new(
            paths.len(),
            |i: int| record(paths[i]),
        )) by {
            assert forall|k: int| 0 <= k < lines.len() implies lines.deep_view()[k] == (seq![
                records_header(),
            ] + Seq::new(paths.len(), |i: int| record(paths[i])))[k] by {
                if k > 0 {
                    assert(lines.deep_view()[(k - 1) + 1] == record(paths[k - 1]));
                }
            }
        }
    }
    let mut done = String::from_str("Done! The result is saved as ");
    done.append(fname.as_str());
    Ok(Records { name: fname, lines, done })
}

} // verus!
