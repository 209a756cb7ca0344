//! The list of found files as a table: one line per file, with room for the
//! new name, and the two ids that a file name of seven parts carries.

use crate::paths::{file_name, path_file_name, path_precedes, precedes, NameError};
use crate::text::{chars_of, slice};
use vstd::prelude::*;
use vstd::seq_lib::*;
use vstd::string::*;

verus! {

/// How many underscores `name` holds.
pub open spec fn underscores(name: Seq<char>) -> nat
    decreases name.len(),
{
    if name.len() == 0 {
        0
    } else {
        underscores(name.drop_last()) + if name.last() == '_' {
            1nat
        } else {
            0nat
        }
    }
}

/// Whether `file_id` and `read_id` are the two ids of `name`: the name has
/// seven parts between its underscores, the first three make the file id and
/// the last four the read id.
pub open spec fn ids_of(name: Seq<char>, file_id: Seq<char>, read_id: Seq<char>) -> bool {
    &&& underscores(name) == 6
    &&& name == file_id + seq!['_'] + read_id
    &&& underscores(file_id) == 2
}

/// The two ids of a file name of seven parts: the file id and the read id.
pub open spec fn ids(name: Seq<char>) -> (Seq<char>, Seq<char>) {
    choose|file_id: Seq<char>, read_id: Seq<char>| ids_of(name, file_id, read_id)
}

/// How many of the paths at the front of `sorted` come before `item`, or are
/// the same path.
pub open spec fn leading(sorted: Seq<Seq<char>>, item: Seq<char>) -> nat
    decreases sorted.len(),
{
    if sorted.len() > 0 && path_precedes(sorted[0], item) {
        1 + leading(sorted.drop_first(), item)
    } else {
        0
    }
}

/// `paths` in the order of the paths: each path in turn is put behind the
/// paths at the front that come before it or are the same, so that paths which
/// are the same stay in the order they came in.
pub open spec fn path_sorted(paths: Seq<Seq<char>>) -> Seq<Seq<char>>
    decreases paths.len(),
{
    if paths.len() == 0 {
        Seq::empty()
    } else {
        let earlier = path_sorted(paths.drop_last());
        earlier.insert(leading(earlier, paths.last()) as int, paths.last())
    }
}

/// Whether each path of `paths` comes before the next, or is the same.
pub open spec fn ordered(paths: Seq<Seq<char>>) -> bool {
    forall|i: int, j: int|
        0 <= i && j == i + 1 && j < paths.len() ==> path_precedes(
            #[trigger] paths[i],
            #[trigger] paths[j],
        )
}

/// Whether `sorted` holds the paths of `paths`, each as often as `paths`
/// does, in the order of the paths.
pub open spec fn sorted_from(sorted: Seq<Seq<char>>, paths: Seq<Seq<char>>) -> bool {
    sorted.to_multiset() == paths.to_multiset() && ordered(sorted)
}

/// The first line of the table.
pub open spec fn header_line(bpa: bool) -> Seq<char> {
    if bpa {
        "full_path,new_names,filenames"@ + ",id,read_id"@
    } else {
        "full_path,new_names,filenames"@
    }
}

/// The line of the table for one file.
pub open spec fn content_line(id: IdView, bpa: bool) -> Seq<char> {
    let plain = id.full_path + seq![','] + id.new_names + seq![','] + id.fname;
    if bpa {
        plain + seq![','] + id.file_id + seq![','] + id.read_id
    } else {
        plain
    }
}

/// The name of the file that the table is saved in.
pub open spec fn table_name() -> Seq<char> {
    "renamer-finder.csv"@
}

/// The line that tells where the table was saved.
pub open spec fn saved_line() -> Seq<char> {
    "The result is saved as "@ + table_name()
}

/// One file of the table.
#[derive(Debug)]
pub struct Id {
    pub full_path: String,
    pub new_names: String,
    pub fname: String,
    pub file_id: String,
    pub read_id: String,
}

/// An `Id` with its texts as plain sequences.
#[verifier::ext_equal]
pub struct IdView {
    pub full_path: Seq<char>,
    pub new_names: Seq<char>,
    pub fname: Seq<char>,
    pub file_id: Seq<char>,
    pub read_id: Seq<char>,
}

impl View for Id {
    type V = IdView;

    open spec fn view(&self) -> IdView {
        IdView {
            full_path: self.full_path@,
            new_names: self.new_names@,
            fname: self.fname@,
            file_id: self.file_id@,
            read_id: self.read_id@,
        }
    }
}

/// An entry, or none, with its texts as plain sequences.
pub open spec fn id_text(id: Option<Id>) -> Option<IdView> {
    match id {
        Some(id) => Some(id@),
        None => None,
    }
}

/// A table, or the reason why there is none, with its lines as plain text.
pub open spec fn table_text(table: Result<Vec<String>, NameError>) -> Result<
    Seq<Seq<char>>,
    NameError,
> {
    match table {
        Ok(lines) => Ok(lines.deep_view()),
        Err(error) => Err(error),
    }
}

/// The entry of the table for the file at `path`, before its ids are read.
pub open spec fn fresh_id(path: Seq<char>) -> Option<IdView> {
    match path_file_name(path) {
        Some(name) => Some(
            IdView {
                full_path: path,
                new_names: "FILL HERE!"@,
                fname: name,
                file_id: "N/A"@,
                read_id: "N/A"@,
            },
        ),
        None => None,
    }
}

/// An entry with the ids of its file name read: where the name has seven
/// parts between its underscores they are its two ids, else they stay what
/// they were.
pub open spec fn with_ids(id: IdView) -> IdView {
    if underscores(id.fname) == 6 {
        IdView { file_id: ids(id.fname).0, read_id: ids(id.fname).1, ..id }
    } else {
        id
    }
}

/// The line of the table for the file at `path`, which ends in a file name.
pub open spec fn row(path: Seq<char>, bpa: bool) -> Seq<char> {
    let fresh = fresh_id(path)->0;
    if bpa {
        content_line(with_ids(fresh), bpa)
    } else {
        content_line(fresh, bpa)
    }
}

/// Whether some path of `paths` ends in no file name.
pub open spec fn lacks_file_name(paths: Seq<Seq<char>>) -> bool {
    exists|i: int| 0 <= i < paths.len() && path_file_name(#[trigger] paths[i]) is None
}

/// The table for `paths`: the header, then the line of each path in turn.
/// There is no table where a path ends in no file name.
pub open spec fn table(paths: Seq<Seq<char>>, bpa: bool) -> Result<Seq<Seq<char>>, NameError> {
    if lacks_file_name(paths) {
        Err(NameError::NoFileName)
    } else {
        Ok(seq![header_line(bpa)] + Seq::new(paths.len(), |i: int| row(paths[i], bpa)))
    }
}

/// One more character adds one to the count where it is an underscore.
proof fn lemma_underscores_push(name: Seq<char>, c: char)
    ensures
        underscores(name.push(c)) == underscores(name) + if c == '_' {
            1nat
        } else {
            0nat
        },
{
    assert(name.push(c).drop_last() =~= name);
}

/// The underscores of two texts put together are those of the one and those
/// of the other.
proof fn lemma_underscores_add(left: Seq<char>, right: Seq<char>)
    ensures
        underscores(left + right) == underscores(left) + underscores(right),
    decreases right.len(),
{
    if right.len() == 0 {
        assert(left + right =~= left);
    } else {
        lemma_underscores_add(left, right.drop_last());
        assert((left + right).drop_last() =~= left + right.drop_last());
    }
}

/// A file name has one pair of ids at most.
pub proof fn lemma_ids_unique(
    name: Seq<char>,
    file_id: Seq<char>,
    read_id: Seq<char>,
    other_file_id: Seq<char>,
    other_read_id: Seq<char>,
)
    requires
        ids_of(name, file_id, read_id),
        ids_of(name, other_file_id, other_read_id),
    ensures
        file_id == other_file_id,
        read_id == other_read_id,
{
    let short = if file_id.len() <= other_file_id.len() {
        file_id
    } else {
        other_file_id
    };
    let long = if file_id.len() <= other_file_id.len() {
        other_file_id
    } else {
        file_id
    };
    assert(name == short + seq!['_'] + if file_id.len() <= other_file_id.len() {
        read_id
    } else {
        other_read_id
    });
    assert(name == long + seq!['_'] + if file_id.len() <= other_file_id.len() {
        other_read_id
    } else {
        read_id
    });
    if short.len() < long.len() {
        let rest = long.subrange(short.len() as int + 1, long.len() as int);
        assert forall|i: int| 0 <= i < long.len() implies long[i] == (short + seq!['_'] + rest)[i] by {
            assert(name[i] == long[i]);
            if i <= short.len() {
                assert(name[i] == (short + seq!['_'])[i]);
            }
        }
        assert(long =~= short + seq!['_'] + rest);
        lemma_underscores_add(short + seq!['_'], rest);
        lemma_underscores_add(short, seq!['_']);
        assert(underscores(seq!['_']) == 1) by {
            assert(seq!['_'].drop_last() =~= Seq::<char>::empty());
            reveal_with_fuel(underscores, 2);
        }
        assert(false);
    }
    assert forall|i: int| 0 <= i < file_id.len() implies file_id[i] == other_file_id[i] by {
        assert(name[i] == file_id[i]);
        assert(name[i] == other_file_id[i]);
    }
    assert(file_id =~= other_file_id);
    assert forall|i: int| 0 <= i < read_id.len() implies read_id[i] == other_read_id[i] by {
        assert(name[file_id.len() + 1 + i] == read_id[i]);
        assert(name[file_id.len() + 1 + i] == other_read_id[i]);
    }
    assert(read_id.len() == other_read_id.len()) by {
        assert(name.len() == file_id.len() + 1 + read_id.len());
        assert(name.len() == other_file_id.len() + 1 + other_read_id.len());
    }
    assert(read_id =~= other_read_id);
}

/// The two ids that `fname` carries, where it has seven parts between its
/// underscores: the first three parts, and the last four.
pub fn split_ids(fname: &str) -> (found: Option<(String, String)>)
    ensures
        match found {
            Some(pair) => underscores(fname@) == 6 && (pair.0@, pair.1@) == ids(fname@) && ids_of(
                fname@,
                pair.0@,
                pair.1@,
            ),
            None => underscores(fname@) != 6,
        },
{
    let chars = chars_of(fname);
    let total = chars.len();
    let mut count: usize = 0;
    let mut third: usize = 0;
    let mut i: usize = 0;
    assert(fname@.subrange(0, 0) =~= Seq::<char>::empty());
    while i < total
        invariant
            chars@ == fname@,
            total == chars.len(),
            i <= total,
            count <= i,
            count == underscores(fname@.subrange(0, i as int)),
            count >= 3 ==> third < i && fname@[third as int] == '_' && underscores(
                fname@.subrange(0, third as int),
            ) == 2,
        decreases total - i,
    {
        proof {
            assert(fname@.subrange(0, i + 1) =~= fname@.subrange(0, i as int).push(
                fname@[i as int],
            ));
            lemma_underscores_push(fname@.subrange(0, i as int), fname@[i as int]);
        }
        if chars[i] == '_' {
            if count == 2 {
                third = i;
            }
            count += 1;
        }
        i += 1;
    }
    assert(fname@.subrange(0, total as int) =~= fname@);
    if count == 6 {
        let file_id = slice(fname, 0, third);
        let read_id = slice(fname, third + 1, total);
        proof {
            assert(fname@ =~= file_id@ + seq!['_'] + read_id@);
            assert(ids_of(fname@, file_id@, read_id@));
            let chosen = ids(fname@);
            lemma_ids_unique(fname@, file_id@, read_id@, chosen.0, chosen.1);
        }
        Some((file_id, read_id))
    } else {
        None
    }
}

impl Id {
    /// The entry of the table for the file at `lines`, with its ids not read
    /// yet. `None` where the path ends in no file name.
    pub fn new(lines: &str) -> (id: Option<Id>)
        ensures
            id_text(id) == fresh_id(lines@),
    {
        match file_name(lines) {
            Some(fname) => Some(
                Id {
                    full_path: String::from_str(lines),
                    new_names: String::from_str("FILL HERE!"),
                    fname,
                    file_id: String::from_str("N/A"),
                    read_id: String::from_str("N/A"),
                },
            ),
            None => None,
        }
    }

    /// Reads the two ids out of the file name, where it has seven parts
    /// between its underscores; else the entry stays as it is.
    pub fn split_file_names(&mut self)
        ensures
            final(self)@ == with_ids(old(self)@),
    {
        match split_ids(self.fname.as_str()) {
            Some((file_id, read_id)) => {
                self.file_id = file_id;
                self.read_id = read_id;
            },
            None => {},
        }
    }
}

/// Writes the first line of the table.
pub fn write_header(bpa: bool) -> (line: String)
    ensures
        line@ == header_line(bpa),
{
    let mut line = String::from_str("full_path,new_names,filenames");
    if bpa {
        line.append(",id,read_id");
    }
    line
}

/// Writes the line of the table for one file. With `bpa` the ids are read out
/// of the file name first.
pub fn write_content(id: &mut Id, bpa: bool) -> (line: String)
    ensures
        final(id)@ == if bpa {
            with_ids(old(id)@)
        } else {
            old(id)@
        },
        line@ == content_line(final(id)@, bpa),
{
    proof {
        reveal_strlit(",");
        assert(","@ =~= seq![',']);
    }
    let mut line = String::from_str(id.full_path.as_str());
    line.append(",");
    line.append(id.new_names.as_str());
    line.append(",");
    line.append(id.fname.as_str());
    if bpa {
        id.split_file_names();
        line.append(",");
        line.append(id.file_id.as_str());
        line.append(",");
        line.append(id.read_id.as_str());
    }
    line
}

/// Puts `recs` in the order of their paths. Paths that are the same to
/// `std::path` stay in the order they came in.
pub fn sort_paths(recs: &mut Vec<String>)
    ensures
        final(recs).deep_view() == path_sorted(old(recs).deep_view()),
        sorted_from(final(recs).deep_view(), old(recs).deep_view()),
{
    let mut sorted: Vec<String> = Vec::new();
    let mut i: usize = 0;
    assert(recs.deep_view().take(0) =~= Seq::<Seq<char>>::empty());
    assert(sorted.deep_view() =~= path_sorted(recs.deep_view().take(0)));
    while i < recs.len()
        invariant
            i <= recs.len(),
            sorted.len() == i,
            sorted.deep_view() == path_sorted(recs.deep_view().take(i as int)),
            sorted.deep_view().to_multiset() == recs.deep_view().take(i as int).to_multiset(),
            ordered(sorted.deep_view()),
        decreases recs.len() - i,
    {
        let item = String::from_str(recs[i].as_str());
        let ghost before = sorted.deep_view();
        let mut at: usize = 0;
        assert(before.skip(0) =~= before);
        while at < sorted.len() && precedes(sorted[at].as_str(), item.as_str())
            invariant
                at <= sorted.len(),
                before == sorted.deep_view(),
                at > 0 ==> path_precedes(before[at - 1], item@),
                leading(before, item@) == at + leading(before.skip(at as int), item@),
            decreases sorted.len() - at,
        {
            assert(before.skip(at as int).drop_first() =~= before.skip(at + 1));
            at += 1;
        }
        assert(leading(before, item@) == at);
        sorted.insert(at, item);
        proof {
            let now = sorted.deep_view();
            let seen = recs.deep_view().take(i + 1);
            assert(now =~= before.insert(at as int, item@));
            assert(seen.drop_last() =~= recs.deep_view().take(i as int));
            assert(seen.last() == item@);
            assert(seen =~= recs.deep_view().take(i as int).push(item@));
            to_multiset_insert(before, at as int, item@);
            to_multiset_build(recs.deep_view().take(i as int), item@);
            assert forall|a: int, b: int| 0 <= a && b == a + 1 && b < now.len() implies
                path_precedes(#[trigger] now[a], #[trigger] now[b]) by {
                if b < at {
                    assert(now[a] == before[a] && now[b] == before[b]);
                } else if b == at {
                    assert(now[a] == before[at - 1]);
                } else if a == at {
                    assert(now[b] == before[at as int]);
                } else {
                    assert(now[a] == before[a - 1] && now[b] == before[b - 1]);
                }
            }
        }
        i += 1;
    }
    assert(recs.deep_view().take(recs.len() as int) =~= recs.deep_view());
    *recs = sorted;
}

/// The lines of the table for `recs`: the header, then one line per file in
/// the order of the paths, which `recs` is put in. `Err` where a path ends in
/// no file name.
pub fn write_to_csv(recs: &mut Vec<String>, bpa: bool) -> (written: Result<Vec<String>, NameError>)
    ensures
        final(recs).deep_view() == path_sorted(old(recs).deep_view()),
        sorted_from(final(recs).deep_view(), old(recs).deep_view()),
        table_text(written) == table(final(recs).deep_view(), bpa),
{
    sort_paths(recs);
    let mut lines: Vec<String> = Vec::new();
    lines.push(write_header(bpa));
    let mut i: usize = 0;
    while i < recs.len()
        invariant
            i <= recs.len(),
            lines.len() == i + 1,
            recs.deep_view() == path_sorted(old(recs).deep_view()),
            sorted_from(recs.deep_view(), old(recs).deep_view()),
            lines.deep_view()[0] == header_line(bpa),
            forall|j: int| 0 <= j < i ==> path_file_name(#[trigger] recs.deep_view()[j]) is Some,
            forall|j: int|
                0 <= j < i ==> #[trigger] lines.deep_view()[j + 1] == row(recs.deep_view()[j], bpa),
        decreases recs.len() - i,
    {
        let mut id = match Id::new(recs[i].as_str()) {
            Some(id) => id,
            None => {
                assert(path_file_name(recs.deep_view()[i as int]) is None);
                return Err(NameError::NoFileName);
            },
        };
        let ghost before = lines.deep_view();
        let line = write_content(&mut id, bpa);
        lines.push(line);
        proof {
            assert(lines.deep_view()[i + 1] == row(recs.deep_view()[i as int], bpa));
            assert forall|j: int| 0 <= j < i + 1 implies #[trigger] lines.deep_view()[j + 1]
                == row(recs.deep_view()[j], bpa) by {
                if j < i {
                    assert(lines.deep_view()[j + 1] == before[j + 1]);
                }
            }
            assert(lines.deep_view()[0] == before[0]);
        }
        i += 1;
    }
    proof {
        let paths = recs.deep_view();
        assert(!lacks_file_name(paths));
        assert(lines.deep_view() =~= seq![header_line(bpa)] + Seq::new(
            paths.len(),
            |i: int| row(paths[i], bpa),
        )) by {
            assert forall|k: int| 0 <= k < lines.len() implies lines.deep_view()[k] == (seq![
                header_line(bpa),
            ] + Seq::new(paths.len(), |i: int| row(paths[i], bpa)))[k] by {
                if k > 0 {
                    assert(lines.deep_view()[(k - 1) + 1] == row(paths[k - 1], bpa));
                }
            }
        }
    }
    Ok(lines)
}

/// The name of the file that the table is saved in.
pub fn csv_name() -> (name: &'static str)
    ensures
        name@ == table_name(),
{
    "renamer-finder.csv"
}

/// Writes the line that tells where the table was saved.
pub fn display_saved() -> (line: String)
    ensures
        line@ == saved_line(),
{
    let mut line = String::from_str("The result is saved as ");
    line.append(csv_name());
    line
}

} // verus!
