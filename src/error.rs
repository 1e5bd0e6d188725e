//! Errors of repository processing.

use vstd::prelude::*;

verus! {

/// Errors that can occur while processing a repository.
#[derive(Debug, Clone, PartialEq, Eq)]
pub enum RepoError {
    /// Reading the tree or writing the output failed.
    Io(String),
    /// The directory could not be processed.
    DirectoryProcessing(String),
    /// The output could not be serialized; names the file that failed.
    Serialization(String),
    /// A glob pattern was refused; holds the pattern.
    InvalidPattern(String),
    /// The accepted patterns could not be compiled into one set.
    GlobSetBuild,
}

} // verus!
