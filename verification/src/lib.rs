//! Bulk renaming of files, driven by a mapping of each file to the name wanted
//! for it.
//!
//! The library decides and words; it touches neither disk nor terminal. Its
//! caller reads the mapping file, asks the disk, renames, and shows the lines.
//!
//! - `resolver` works out where a file goes: the wanted name in the directory
//!   of the file, or a stand-in for it where the name is taken.
//! - `executor` runs a mapping step by step, with the operator's say after a
//!   refusal, and `journal` keeps what was renamed so that it can be undone.
//! - `report` words what happened; `prompt` reads the operator's keys.
//! - `parser`, `checker` and `dryrun` read a mapping file and preview it.
//! - `finder`, `writer` and `output` list the files of a search as a table.
//! - `cli` tells what the command line asks for.
//! - `paths` and `text` hold what the others are written with.

pub mod checker;
pub mod cli;
pub mod dryrun;
pub mod executor;
pub mod finder;
pub mod journal;
pub mod output;
pub mod parser;
pub mod paths;
pub mod prompt;
pub mod report;
pub mod resolver;
pub mod text;
pub mod writer;
