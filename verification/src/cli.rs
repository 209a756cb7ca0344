//! What the command line asks for, once its arguments are read.

use vstd::prelude::*;

verus! {

/// What `find` is to do.
#[derive(Clone, Copy, Debug, PartialEq, Eq, Structural)]
pub enum FindMode {
    /// Search a directory.
    Directory,
    /// List the files that were named.
    Wildcard,
    /// Nothing was asked for.
    Nothing,
}

/// What `rename` is to do.
#[derive(Clone, Copy, Debug, PartialEq, Eq, Structural)]
pub enum RenameMode {
    /// Show what would be renamed, and rename nothing.
    Preview,
    /// Rename.
    Apply,
    /// No mapping file was given.
    Nothing,
}

/// What `find` is to do: a directory goes before named files.
pub open spec fn find_mode_of(has_dir: bool, has_wildcard: bool) -> FindMode {
    if has_dir {
        FindMode::Directory
    } else if has_wildcard {
        FindMode::Wildcard
    } else {
        FindMode::Nothing
    }
}

/// What `rename` is to do: nothing without a mapping file, a preview where
/// one is asked for.
pub open spec fn rename_mode_of(has_input: bool, dry_run: bool) -> RenameMode {
    if !has_input {
        RenameMode::Nothing
    } else if dry_run {
        RenameMode::Preview
    } else {
        RenameMode::Apply
    }
}

/// Decides what `find` is to do.
pub fn find_mode(has_dir: bool, has_wildcard: bool) -> (mode: FindMode)
    ensures
        mode == find_mode_of(has_dir, has_wildcard),
{
    if has_dir {
        FindMode::Directory
    } else if has_wildcard {
        FindMode::Wildcard
    } else {
        FindMode::Nothing
    }
}

/// Decides what `rename` is to do.
pub fn rename_mode(has_input: bool, dry_run: bool) -> (mode: RenameMode)
    ensures
        mode == rename_mode_of(has_input, dry_run),
{
    if has_input {
        if dry_run {
            RenameMode::Preview
        } else {
            RenameMode::Apply
        }
    } else {
        RenameMode::Nothing
    }
}

/// What is said where `find` was asked for nothing.
pub fn no_command_line() -> (line: &'static str)
    ensures
        line@ == "NO COMMANDS PROVIDED!"@,
{
    "NO COMMANDS PROVIDED!"
}

} // verus!
