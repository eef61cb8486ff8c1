//! What the resolver asks of the filesystem, and of the crates that search
//! it.
//!
//! Every function here is a thin, trusted call: Verus believes its contract
//! and does not read its body. What a search finds depends on what is on
//! disk, so nothing is promised of it; only whether a glob expression is
//! well formed is a property of the expression alone.

use vstd::prelude::*;

verus! {

/// A path as the standard library owns it; glob cursors yield such values.
#[verifier::external_type_specification]
#[verifier::external_body]
pub struct ExPathBuf(std::path::PathBuf);

/// An entry of a walk; walk cursors yield such values.
#[verifier::external_type_specification]
#[verifier::external_body]
pub struct ExDirEntry(walkdir::DirEntry);

/// The cursor over the paths that match a glob expression.
#[verifier::external_type_specification]
#[verifier::external_body]
pub struct ExGlobPaths(glob::Paths);

/// The error for a malformed glob expression.
#[verifier::external_type_specification]
#[verifier::external_body]
pub struct ExPatternError(glob::PatternError);

/// The error for a path that matched in part but could not be read.
#[verifier::external_type_specification]
#[verifier::external_body]
pub struct ExGlobError(glob::GlobError);

/// The cursor over the entries below a directory.
#[verifier::external_type_specification]
#[verifier::external_body]
pub struct ExWalkIter(walkdir::IntoIter);

/// The error for an entry that could not be read during a walk.
#[verifier::external_type_specification]
#[verifier::external_body]
pub struct ExWalkError(walkdir::Error);

/// Whether `glob::glob` accepts the expression as well formed, with the
/// separators of the platform that the crate is built for.
pub uninterp spec fn glob_accepts(pattern: Seq<char>) -> bool;

/// Opens the search for a glob expression with `glob::glob`.
///
/// Trusted: the call fails exactly where the expression is malformed, which
/// the expression alone decides. Nothing is claimed of the cursor.
#[verifier::external_body]
pub(crate) fn open_glob(pattern: &str) -> (opened: Result<glob::Paths, glob::PatternError>)
    ensures
        opened is Ok <==> glob_accepts(pattern@),
{
    glob::glob(pattern)
}

/// Pulls the next match from a glob cursor with `glob::Paths::next`, as
/// text.
///
/// Trusted: nothing is claimed of what comes back.
#[verifier::external_body]
pub(crate) fn next_match(paths: &mut glob::Paths) -> (found: Option<
    Result<String, glob::GlobError>,
>) {
    paths.next().map(|found| found.map(|path| path.to_string_lossy().into_owned()))
}

/// Opens a walk below `root` with `walkdir::WalkDir::new` and its
/// `into_iter`. Nothing is read before the first pull.
///
/// Trusted: nothing is claimed of the cursor.
#[verifier::external_body]
pub(crate) fn open_walk(root: &str) -> (walk: walkdir::IntoIter) {
    walkdir::WalkDir::new(root).into_iter()
}

/// Pulls the next entry from a walk with `walkdir::IntoIter::next`, as the
/// text of its path.
///
/// Trusted: nothing is claimed of what comes back.
#[verifier::external_body]
pub(crate) fn next_entry(walk: &mut walkdir::IntoIter) -> (found: Option<
    Result<String, walkdir::Error>,
>) {
    walk.next().map(|found| found.map(|entry| entry.path().to_string_lossy().into_owned()))
}

/// Asks with `std::path::Path::is_dir` whether a path names a directory.
///
/// Trusted: nothing is claimed of the answer.
#[verifier::external_body]
pub(crate) fn is_dir(path: &str) -> (answer: bool) {
    std::path::Path::new(path).is_dir()
}

} // verus!
