//! Paths of the file system, which the library carries and never reads.

use vstd::prelude::*;

verus! {

/// A path of the file system. Nothing is known of what it holds.
#[verifier::external_type_specification]
#[verifier::external_body]
pub struct ExPathBuf(std::path::PathBuf);

/// The user's home directory, as `dirs_next::home_dir` finds it in the
/// environment or in the system's user records. It may find none, and two
/// calls may differ: nothing is claimed of what comes back.
#[verifier::external_body]
pub(crate) fn home_directory() -> (home: Option<std::path::PathBuf>) {
    dirs_next::home_dir()
}

} // verus!
