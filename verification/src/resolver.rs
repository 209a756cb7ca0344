//! Where a file goes: the wanted name is anchored in the directory of the file
//! it is given to, and a name that is taken already is told apart by a token
//! in front of its last meaningful extension.

use crate::paths::{
    extension, extension_of, file_name, has_separator, holds_separator, join, parent,
    path_extension, path_file_name, path_join, path_parent, path_with_extension, set_extension,
    split_name, stem_of, NameError,
};
use crate::text::{chars_of, ends_with, slice};
use vstd::prelude::*;
use vstd::string::*;

verus! {

/// A path, or the reason why there is none, with the path as plain text.
pub open spec fn path_text(outcome: Result<String, NameError>) -> Result<Seq<char>, NameError> {
    match outcome {
        Ok(path) => Ok(path@),
        Err(error) => Err(error),
    }
}

/// The token that tells a name apart from the taken one it was made from.
pub open spec fn default_token() -> Seq<char> {
    "_renamerdup"@
}

/// The inner extensions that the token has to stand in front of, in the order
/// in which a stem is tried for them.
pub open spec fn inner_extensions() -> Seq<Seq<char>> {
    seq![".fastq"@, ".fq"@, ".fasta"@]
}

/// The first of `endings` that `stem` ends in; empty where it ends in none.
pub open spec fn first_ending(stem: Seq<char>, endings: Seq<Seq<char>>) -> Seq<char>
    decreases endings.len(),
{
    if endings.len() == 0 {
        Seq::empty()
    } else if endings[0].is_suffix_of(stem) {
        endings[0]
    } else {
        first_ending(stem, endings.drop_first())
    }
}

/// The inner extension that a stem ends in, if it is one that the token has to
/// stand in front of. Empty for every other stem: there the token goes behind
/// the whole stem.
pub open spec fn inner_extension(stem: Seq<char>) -> Seq<char> {
    first_ending(stem, inner_extensions())
}

/// The file name that stands in for a taken one: the token goes in front of
/// the inner extension of the stem, or behind the stem where it has none, and
/// the extension follows its dot as before.
pub open spec fn duplicate_name_of(stem: Seq<char>, extension: Seq<char>, token: Seq<char>) -> Seq<
    char,
> {
    let inner = inner_extension(stem);
    stem.subrange(0, stem.len() - inner.len()) + token + inner + seq!['.'] + extension
}

/// The path that stands in for the taken `path`: the same directory, with the
/// file name that `duplicate_name_of` makes of its stem and extension.
pub open spec fn duplicate_path(path: Seq<char>, token: Seq<char>) -> Result<Seq<char>, NameError> {
    match path_file_name(path) {
        None => Err(NameError::NoFileName),
        Some(name) => match extension_of(name) {
            None => Err(NameError::NoExtension),
            Some(ext) => match path_parent(path) {
                None => Err(NameError::NoParent),
                Some(dir) => Ok(path_join(dir, duplicate_name_of(stem_of(name), ext, token))),
            },
        },
    }
}

/// `path` with the extension of `origin`: unchanged where the two extensions
/// agree, else with the extension of `origin` set in place of its own.
pub open spec fn matched_extension(origin: Seq<char>, path: Seq<char>) -> Result<
    Seq<char>,
    NameError,
> {
    match path_extension(origin) {
        None => Err(NameError::NoExtension),
        Some(wanted) => match path_extension(path) {
            None => Err(NameError::NoExtension),
            Some(held) => if wanted == held {
                Ok(path)
            } else if holds_separator(wanted) {
                Err(NameError::SeparatorInExtension)
            } else {
                Ok(path_with_extension(path, wanted))
            },
        },
    }
}

/// The destination of a rename before any collision is looked at: the file
/// name of `desired`, whatever directory `desired` names, in the directory of
/// `origin`, with the extension of `origin`.
pub open spec fn anchored(origin: Seq<char>, desired: Seq<char>) -> Result<Seq<char>, NameError> {
    match path_parent(origin) {
        None => Err(NameError::NoParent),
        Some(dir) => match path_file_name(desired) {
            None => Err(NameError::NoFileName),
            Some(name) => matched_extension(origin, path_join(dir, name)),
        },
    }
}

/// The destination of a rename: the anchored one where it is free, the name
/// that stands in for it where it is `taken` by a file.
pub open spec fn resolved(origin: Seq<char>, desired: Seq<char>, taken: bool, token: Seq<char>)
    -> Result<Seq<char>, NameError> {
    match anchored(origin, desired) {
        Ok(destination) => if taken {
            duplicate_path(destination, token)
        } else {
            Ok(destination)
        },
        Err(error) => Err(error),
    }
}

/// Whether `inner` is one of the inner extensions that the token goes in
/// front of.
pub open spec fn recognized_inner_extension(inner: Seq<char>) -> bool {
    inner_extensions().contains(inner)
}

/// A file name made of a base, a recognized inner extension, a dot and an
/// outer extension gets the token right in front of the inner extension when
/// it is told apart from a taken name: neither behind the inner extension nor
/// behind the outer one.
pub proof fn lemma_token_goes_before_inner_extension(
    base: Seq<char>,
    inner: Seq<char>,
    outer: Seq<char>,
    token: Seq<char>,
)
    requires
        recognized_inner_extension(inner),
        !outer.contains('.'),
    ensures
        stem_of(base + inner + seq!['.'] + outer) == base + inner,
        extension_of(base + inner + seq!['.'] + outer) == Some(outer),
        duplicate_name_of(base + inner, outer, token) == base + token + inner + seq!['.'] + outer,
{
    reveal_strlit(".fastq");
    reveal_strlit(".fq");
    reveal_strlit(".fasta");
    reveal_with_fuel(first_ending, 4);
    let stem = base + inner;
    let name = stem + seq!['.'] + outer;
    let dot = stem.len() as int;
    assert(name[dot] == '.');
    assert(name.contains('.'));
    name.index_of_last_ensures('.');
    let last = name.index_of_last('.')->0;
    if last > dot {
        assert(name[last] == outer[last - dot - 1]);
        assert(outer.contains(outer[last - dot - 1]));
    }
    assert(last == dot);
    assert(name.subrange(0, dot) =~= stem);
    assert(name.subrange(dot + 1, name.len() as int) =~= outer);
    assert(inner =~= stem.subrange(stem.len() - inner.len(), stem.len() as int));
    assert(inner.is_suffix_of(stem));
    let endings = inner_extensions();
    let at = choose|at: int| 0 <= at < endings.len() && endings[at] == inner;
    assert(endings[0] == ".fastq"@ && endings[1] == ".fq"@ && endings[2] == ".fasta"@);
    assert(endings.drop_first() =~= seq![".fq"@, ".fasta"@]);
    assert(endings.drop_first().drop_first() =~= seq![".fasta"@]);
    if at >= 1 {
        assert(!".fastq"@.is_suffix_of(stem)) by {
            if ".fastq"@.is_suffix_of(stem) {
                assert(stem.subrange(stem.len() - 6, stem.len() as int)[5] == 'q');
                assert(stem.subrange(stem.len() - 6, stem.len() as int)[4] == 't');
                if at == 1 {
                    assert(stem.subrange(stem.len() - 3, stem.len() as int)[1] == 'f');
                } else {
                    assert(stem.subrange(stem.len() - 6, stem.len() as int)[5] == 'a');
                }
            }
        }
    }
    if at == 2 {
        assert(!".fq"@.is_suffix_of(stem)) by {
            if ".fq"@.is_suffix_of(stem) {
                assert(stem.subrange(stem.len() - 3, stem.len() as int)[2] == 'q');
                assert(stem.subrange(stem.len() - 6, stem.len() as int)[5] == 'a');
            }
        }
    }
    assert(inner_extension(stem) == inner);
    assert(stem.subrange(0, stem.len() - inner.len()) =~= base);
}

/// The token that `create_duplicate_names` and `check_new_names` put into a name.
pub fn duplicate_token() -> (token: &'static str)
    ensures
        token@ == default_token(),
{
    "_renamerdup"
}

/// The inner extension at place `at` of the table.
fn inner_extension_at(at: usize) -> (ending: &'static str)
    requires
        at < 3,
    ensures
        inner_extensions().len() == 3,
        ending@ == inner_extensions()[at as int],
{
    if at == 0 {
        ".fastq"
    } else if at == 1 {
        ".fq"
    } else {
        ".fasta"
    }
}

/// How many characters the inner extension of `stem` has; 0 where it has none.
fn inner_extension_len(stem: &str) -> (len: usize)
    ensures
        len == inner_extension(stem@).len(),
        inner_extension(stem@).is_suffix_of(stem@),
{
    let mut at: usize = 0;
    assert(inner_extensions().skip(0) =~= inner_extensions());
    while at < 3
        invariant
            at <= 3,
            inner_extensions().len() == 3,
            inner_extension(stem@) == first_ending(stem@, inner_extensions().skip(at as int)),
        decreases 3 - at,
    {
        let ending = inner_extension_at(at);
        proof {
            let rest = inner_extensions().skip(at as int);
            assert(rest[0] == ending@);
            assert(rest.drop_first() =~= inner_extensions().skip(at + 1));
        }
        if ends_with(stem, ending) {
            return chars_of(ending).len();
        }
        at += 1;
    }
    assert(Seq::<char>::empty() =~= stem@.subrange(stem@.len() as int, stem@.len() as int));
    0
}

/// Makes the file name that stands in for a taken one out of its stem and its
/// extension.
pub fn duplicate_file_name(stem: &str, extension: &str, token: &str) -> (name: String)
    ensures
        name@ == duplicate_name_of(stem@, extension@, token@),
{
    let total = chars_of(stem).len();
    let inner = inner_extension_len(stem);
    let mut name = slice(stem, 0, total - inner);
    let tail = slice(stem, total - inner, total);
    proof {
        assert(tail@ =~= inner_extension(stem@));
        reveal_strlit(".");
        assert("."@ =~= seq!['.']);
    }
    name.append(token);
    name.append(tail.as_str());
    name.append(".");
    name.append(extension);
    name
}

/// Makes the path that stands in for the taken `fpath`, told apart by `token`.
pub fn duplicate_name_with(fpath: &str, token: &str) -> (made: Result<String, NameError>)
    ensures
        path_text(made) == duplicate_path(fpath@, token@),
{
    let name = match file_name(fpath) {
        Some(name) => name,
        None => {
            return Err(NameError::NoFileName);
        },
    };
    let (stem, found) = split_name(name.as_str());
    let ext = match found {
        Some(ext) => ext,
        None => {
            return Err(NameError::NoExtension);
        },
    };
    let dir = match parent(fpath) {
        Some(dir) => dir,
        None => {
            return Err(NameError::NoParent);
        },
    };
    let renamed = duplicate_file_name(stem.as_str(), ext.as_str(), token);
    Ok(join(dir.as_str(), renamed.as_str()))
}

/// Makes the path that stands in for the taken `fpath`, with the token
/// `_renamerdup`.
pub fn create_duplicate_names(fpath: &str) -> (made: Result<String, NameError>)
    ensures
        path_text(made) == duplicate_path(fpath@, default_token()),
{
    duplicate_name_with(fpath, duplicate_token())
}

/// The path to rename to, given whether `destination` is taken by a file: the
/// destination itself where it is free, else the path that stands in for it,
/// told apart by `token`. The stand-in is not looked up in turn.
pub fn check_new_names_with(destination: &str, is_file: bool, token: &str) -> (target: Result<
    String,
    NameError,
>)
    ensures
        is_file ==> path_text(target) == duplicate_path(destination@, token@),
        !is_file ==> path_text(target) == Ok::<Seq<char>, NameError>(destination@),
{
    if is_file {
        duplicate_name_with(destination, token)
    } else {
        Ok(String::from_str(destination))
    }
}

/// `check_new_names_with` the token `_renamerdup`.
pub fn check_new_names(destination: &str, is_file: bool) -> (target: Result<String, NameError>)
    ensures
        is_file ==> path_text(target) == duplicate_path(destination@, default_token()),
        !is_file ==> path_text(target) == Ok::<Seq<char>, NameError>(destination@),
{
    check_new_names_with(destination, is_file, duplicate_token())
}

/// Gives `new_names` the extension of `old_name` where it has another. On an
/// error `new_names` is left as it was.
pub fn match_extension(old_name: &str, new_names: &mut String) -> (done: Result<(), NameError>)
    ensures
        match done {
            Ok(()) => matched_extension(old_name@, old(new_names)@) == Ok::<Seq<char>, NameError>(
                final(new_names)@,
            ),
            Err(error) => matched_extension(old_name@, old(new_names)@) == Err::<
                Seq<char>,
                NameError,
            >(error) && final(new_names)@ == old(new_names)@,
        },
{
    let wanted = match extension(old_name) {
        Some(wanted) => wanted,
        None => {
            return Err(NameError::NoExtension);
        },
    };
    let held = match extension(new_names.as_str()) {
        Some(held) => held,
        None => {
            return Err(NameError::NoExtension);
        },
    };
    if wanted == held {
        return Ok(());
    }
    if has_separator(wanted.as_str()) {
        return Err(NameError::SeparatorInExtension);
    }
    set_extension(new_names, wanted.as_str());
    Ok(())
}

/// The destination of a rename before any collision is looked at: the file
/// name of `prop_names` in the directory of `old_names`, with the extension of
/// `old_names`.
pub fn construct_new_names(old_names: &str, prop_names: &str) -> (made: Result<String, NameError>)
    ensures
        path_text(made) == anchored(old_names@, prop_names@),
{
    let dir = match parent(old_names) {
        Some(dir) => dir,
        None => {
            return Err(NameError::NoParent);
        },
    };
    let name = match file_name(prop_names) {
        Some(name) => name,
        None => {
            return Err(NameError::NoFileName);
        },
    };
    let mut new_names = join(dir.as_str(), name.as_str());
    match match_extension(old_names, &mut new_names) {
        Ok(()) => Ok(new_names),
        Err(error) => Err(error),
    }
}

/// The path that `origin` is renamed to when `desired` is asked for, given
/// whether the anchored destination is `taken` by a file. Collisions are told
/// apart by `token`.
pub fn resolve_with(origin: &str, desired: &str, taken: bool, token: &str) -> (target: Result<
    String,
    NameError,
>)
    ensures
        path_text(target) == resolved(origin@, desired@, taken, token@),
        !taken ==> path_text(target) == anchored(origin@, desired@),
{
    match construct_new_names(origin, desired) {
        Ok(destination) => check_new_names_with(destination.as_str(), taken, token),
        Err(error) => Err(error),
    }
}

/// `resolve_with` the token `_renamerdup`.
pub fn resolve(origin: &str, desired: &str, taken: bool) -> (target: Result<String, NameError>)
    ensures
        path_text(target) == resolved(origin@, desired@, taken, default_token()),
        !taken ==> path_text(target) == anchored(origin@, desired@),
{
    resolve_with(origin, desired, taken, duplicate_token())
}

} // verus!
