//! Paths held as text. `std::path` takes a path apart and puts one together;
//! the rules on stems and extensions of a file name are worked out here.

use crate::text::{chars_of, last_index_of, slice};
use vstd::prelude::*;

verus! {

/// The directory that holds the last component of `path`: what
/// `std::path::Path::parent` returns for it on the platform the library is
/// built for. `None` where the path is empty or ends in a root.
pub uninterp spec fn path_parent(path: Seq<char>) -> Option<Seq<char>>;

/// The last component of `path`, where it is an ordinary name: what
/// `std::path::Path::file_name` returns for it on the platform the library is
/// built for.
pub uninterp spec fn path_file_name(path: Seq<char>) -> Option<Seq<char>>;

/// `name` put behind `base`: what `std::path::Path::join` returns for the two.
pub uninterp spec fn path_join(base: Seq<char>, name: Seq<char>) -> Seq<char>;

/// `path` after `std::path::PathBuf::set_extension` was called on it with
/// `extension`.
pub uninterp spec fn path_with_extension(path: Seq<char>, extension: Seq<char>) -> Seq<char>;

/// Whether `c` parts the components of a path: what `std::path::is_separator`
/// returns for it.
pub uninterp spec fn path_separator(c: char) -> bool;

/// Whether `left` comes before `right`, or is the same path, in the order of
/// `std::path::Path`, which goes component by component.
pub uninterp spec fn path_precedes(left: Seq<char>, right: Seq<char>) -> bool;

/// Why a path cannot be given a new name.
#[derive(Clone, Copy, Debug, PartialEq, Eq, Structural)]
pub enum NameError {
    /// The path has no directory above it.
    NoParent,
    /// The path does not end in a file name.
    NoFileName,
    /// The file name has no extension.
    NoExtension,
    /// The extension to be set holds a path separator.
    SeparatorInExtension,
}

/// Calls `std::path::Path::parent` on `path`. Nothing is claimed of the answer
/// but that it is the one `path_parent` names.
#[verifier::external_body]
pub(crate) fn parent(path: &str) -> (dir: Option<String>)
    ensures
        dir.deep_view() == path_parent(path@),
{
    match std::path::Path::new(path).parent() {
        Some(dir) => Some(dir.to_string_lossy().into_owned()),
        None => None,
    }
}

/// Calls `std::path::Path::file_name` on `path`. Nothing is claimed of the
/// answer but that it is the one `path_file_name` names.
#[verifier::external_body]
pub(crate) fn file_name(path: &str) -> (name: Option<String>)
    ensures
        name.deep_view() == path_file_name(path@),
{
    match std::path::Path::new(path).file_name() {
        Some(name) => Some(name.to_string_lossy().into_owned()),
        None => None,
    }
}

/// Calls `std::path::Path::join` on `base` with `name`. Nothing is claimed of
/// the answer but that it is the one `path_join` names.
#[verifier::external_body]
pub(crate) fn join(base: &str, name: &str) -> (joined: String)
    ensures
        joined@ == path_join(base@, name@),
{
    std::path::Path::new(base).join(name).to_string_lossy().into_owned()
}

/// Calls `std::path::PathBuf::set_extension` on `path` with `extension`, which
/// panics where the extension holds a separator: the `requires` keeps those
/// out. Nothing is claimed of the path afterwards but that it is the one
/// `path_with_extension` names.
#[verifier::external_body]
pub(crate) fn set_extension(path: &mut String, extension: &str)
    requires
        !holds_separator(extension@),
    ensures
        final(path)@ == path_with_extension(old(path)@, extension@),
{
    let mut buffer = std::path::PathBuf::from(path.as_str());
    buffer.set_extension(extension);
    *path = buffer.to_string_lossy().into_owned();
}

/// Compares `left` and `right` with `<=` as `std::path::Path` orders them. The
/// answer is the one `path_precedes` names; and since the order is total, one
/// of two paths comes before the other.
#[verifier::external_body]
pub(crate) fn precedes(left: &str, right: &str) -> (first: bool)
    ensures
        first == path_precedes(left@, right@),
        !first ==> path_precedes(right@, left@),
{
    std::path::Path::new(left) <= std::path::Path::new(right)
}

/// `std::path::is_separator` answers as `path_separator` names it.
pub assume_specification[ std::path::is_separator ](c: char) -> (found: bool)
    ensures
        found == path_separator(c),
;

/// Whether some character of `text` is a path separator.
pub open spec fn holds_separator(text: Seq<char>) -> bool {
    exists|i: int| 0 <= i < text.len() && path_separator(#[trigger] text[i])
}

/// The place of the dot that parts stem and extension in a file name: its last
/// dot, unless that is the first character.
pub open spec fn extension_dot(name: Seq<char>) -> Option<int> {
    match name.index_of_last('.') {
        Some(i) => if i > 0 {
            Some(i)
        } else {
            None
        },
        None => None,
    }
}

/// The stem of a file name: what stands before the dot of the extension, or
/// the whole name where it has no extension.
pub open spec fn stem_of(name: Seq<char>) -> Seq<char> {
    match extension_dot(name) {
        Some(i) => name.subrange(0, i),
        None => name,
    }
}

/// The extension of a file name: what follows its last dot. A name without a
/// dot has none, nor has one whose only dot comes first.
pub open spec fn extension_of(name: Seq<char>) -> Option<Seq<char>> {
    match extension_dot(name) {
        Some(i) => Some(name.subrange(i + 1, name.len() as int)),
        None => None,
    }
}

/// The extension of the file name that `path` ends in.
pub open spec fn path_extension(path: Seq<char>) -> Option<Seq<char>> {
    match path_file_name(path) {
        Some(name) => extension_of(name),
        None => None,
    }
}

/// Whether some character of `text` is a path separator.
pub fn has_separator(text: &str) -> (found: bool)
    ensures
        found == holds_separator(text@),
{
    let chars = chars_of(text);
    let mut i: usize = 0;
    while i < chars.len()
        invariant
            chars@ == text@,
            i <= chars.len(),
            forall|j: int| 0 <= j < i ==> !path_separator(#[trigger] text@[j]),
        decreases chars.len() - i,
    {
        if std::path::is_separator(chars[i]) {
            return true;
        }
        i += 1;
    }
    false
}

/// Parts a file name into its stem and its extension.
pub fn split_name(name: &str) -> (parts: (String, Option<String>))
    ensures
        parts.0@ == stem_of(name@),
        parts.1.deep_view() == extension_of(name@),
{
    let chars = chars_of(name);
    proof {
        name@.index_of_last_ensures('.');
    }
    match last_index_of(&chars, '.') {
        Some(dot) => {
            if dot > 0 {
                let stem = slice(name, 0, dot);
                let extension = slice(name, dot + 1, chars.len());
                (stem, Some(extension))
            } else {
                (slice(name, 0, chars.len()), None)
            }
        },
        None => (slice(name, 0, chars.len()), None),
    }
}

/// The extension of the file name that `path` ends in; `None` where it ends in
/// no file name, or in one without an extension.
pub fn extension(path: &str) -> (found: Option<String>)
    ensures
        found.deep_view() == path_extension(path@),
{
    match file_name(path) {
        Some(name) => split_name(name.as_str()).1,
        None => None,
    }
}

} // verus!
