pub mod ast_ops;
pub mod name_filter;

pub use ast_ops::{extract_symbols, ExtractSymbolsRequest, FileSymbols, SourceFile, Symbol};

use crate::text::has_char;
use vstd::prelude::*;
use vstd::string::StringExecFns;

verus! {

/// How the files that a path pattern stands for are to be found.
#[derive(Debug, Clone, Copy, PartialEq, Eq, Structural)]
pub enum PathPlan {
    /// The pattern is the path of a file: that file.
    SingleFile,
    /// The pattern is the path of a directory: all files below it.
    Directory,
    /// The pattern is a glob with braces: the files that it matches.
    BraceGlob,
    /// The pattern is a glob without braces: the files that it matches and all
    /// files below the directories that it matches.
    SimpleGlob,
    /// The pattern is neither a path that exists nor a glob.
    Missing,
}

/// What to do with a path that a directory or a glob has led to.
#[derive(Debug, Clone, Copy, PartialEq, Eq, Structural)]
pub enum EntryPlan {
    /// The path is a file: take it.
    Take,
    /// The path is a directory: take all files below it.
    Descend,
    /// Leave the path out.
    Skip,
}

/// Whether `pattern` holds one of the characters that make a glob.
pub open spec fn is_glob(pattern: Seq<char>) -> bool {
    pattern.contains('*') || pattern.contains('?') || pattern.contains('[') || pattern.contains(
        '{',
    )
}

/// The plan for a pattern, given whether it is the path of a file and whether
/// it is the path of a directory.
pub open spec fn planned(pattern: Seq<char>, is_file: bool, is_dir: bool) -> PathPlan {
    if is_file {
        PathPlan::SingleFile
    } else if is_dir {
        PathPlan::Directory
    } else if is_glob(pattern) {
        if pattern.contains('{') {
            PathPlan::BraceGlob
        } else {
            PathPlan::SimpleGlob
        }
    } else {
        PathPlan::Missing
    }
}

/// The plan for a path that was found, given whether it is a file, whether it
/// is a directory, and whether directories are to be searched.
pub open spec fn planned_entry(is_file: bool, is_dir: bool, search_directories: bool) -> EntryPlan {
    if is_file {
        EntryPlan::Take
    } else if is_dir && search_directories {
        EntryPlan::Descend
    } else {
        EntryPlan::Skip
    }
}

/// The message for a pattern that is neither a path that exists nor a glob.
pub open spec fn missing_path(pattern: Seq<char>) -> Seq<char> {
    "Path does not exist: "@ + pattern
}

/// Decides how the files of `path_pattern` are to be found.
pub fn plan_paths(path_pattern: &str, is_file: bool, is_dir: bool) -> (plan: PathPlan)
    ensures
        plan == planned(path_pattern@, is_file, is_dir),
{
    if is_file {
        PathPlan::SingleFile
    } else if is_dir {
        PathPlan::Directory
    } else if has_char(path_pattern, '*') || has_char(path_pattern, '?') || has_char(
        path_pattern,
        '[',
    ) || has_char(path_pattern, '{') {
        if has_char(path_pattern, '{') {
            PathPlan::BraceGlob
        } else {
            PathPlan::SimpleGlob
        }
    } else {
        PathPlan::Missing
    }
}

/// Decides what to do with a path that a directory or a glob has led to.
pub fn plan_entry(is_file: bool, is_dir: bool, search_directories: bool) -> (plan: EntryPlan)
    ensures
        plan == planned_entry(is_file, is_dir, search_directories),
{
    if is_file {
        EntryPlan::Take
    } else if is_dir && search_directories {
        EntryPlan::Descend
    } else {
        EntryPlan::Skip
    }
}

/// The message for a pattern that is neither a path that exists nor a glob.
pub fn missing_path_message(path_pattern: &str) -> (message: String)
    ensures
        message@ == missing_path(path_pattern@),
{
    "Path does not exist: ".to_owned().concat(path_pattern)
}

} // verus!
