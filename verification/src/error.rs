//! The failures of a resolution.

use vstd::prelude::*;

verus! {

/// Why a pattern could not be resolved further. Each failure ends the
/// pattern that it arose in.
#[derive(Debug)]
pub enum ResourceError {
    /// The glob expression is malformed.
    GlobSyntax(glob::PatternError),
    /// The filesystem failed while a glob expression was expanded.
    GlobMatch(glob::GlobError),
    /// The filesystem failed while a directory was walked.
    Walk(walkdir::Error),
    /// A directory was met although walking is not permitted.
    DirectoryNotAllowed(String),
}

/// The mathematical value of a [`ResourceError`].
pub enum Failure {
    GlobSyntax(glob::PatternError),
    GlobMatch(glob::GlobError),
    Walk(walkdir::Error),
    DirectoryNotAllowed(Seq<char>),
}

impl View for ResourceError {
    type V = Failure;

    open spec fn view(&self) -> Failure {
        match self {
            ResourceError::GlobSyntax(error) => Failure::GlobSyntax(*error),
            ResourceError::GlobMatch(error) => Failure::GlobMatch(*error),
            ResourceError::Walk(error) => Failure::Walk(*error),
            ResourceError::DirectoryNotAllowed(path) => Failure::DirectoryNotAllowed(path@),
        }
    }
}

} // verus!
