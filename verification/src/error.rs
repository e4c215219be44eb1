//! Why a scan can fail.
use vstd::prelude::*;

verus! {

/// Why a scan failed.
#[derive(Debug, Clone, Copy, PartialEq, Eq, Structural)]
pub enum ScanError {
    /// The repository has more files than the policy accepts.
    TooManyFiles,
    /// The walk that lists the files has directories left to read.
    UnfinishedWalk,
    /// The file at this position of the list of files could not be read.
    Unreadable(usize),
    /// The file at this position of the list of files has more bytes than the policy accepts.
    OverCap(usize),
}

/// The message of [`ScanError::TooManyFiles`].
pub fn too_many_files_message() -> (r: &'static str)
    ensures
        r@ == "repo has too many files to scan safely"@,
{
    "repo has too many files to scan safely"
}

/// The message of [`ScanError::OverCap`] for the file at `path`.
pub fn over_cap_message(path: &str) -> (r: String)
    ensures
        r@ == path@ + " exceeds scan read cap"@,
{
    let mut r = String::from_str(path);
    r.append(" exceeds scan read cap");
    r
}

} // verus!
