//! Pre-build checks: the folders and files a build reads must exist
//! before any staging work starts.

use vstd::prelude::*;
use crate::paths;

verus! {

/// Relies on std's `Path::exists`: whether the path points at an entity
/// that exists on disk at the moment of the call. The result depends on
/// the state of the file system, so nothing is promised of it.
#[verifier::external_body]
pub(crate) fn path_exists(p: &str) -> bool {
    std::path::Path::new(p).exists()
}

/// Whether the folders named by `paths::folders` all exist right now,
/// stopping at the first one that does not. The answer depends on the
/// file system, so no more can be promised of it.
pub fn check_folders() -> bool {
    let fs = paths::folders();
    let mut i: usize = 0;
    while i < fs.len()
        invariant
            i <= fs@.len(),
        decreases fs@.len() - i,
    {
        if !path_exists(fs[i].as_str()) {
            return false;
        }
        i += 1;
    }
    true
}

/// Whether the files named by `paths::files` all exist right now,
/// stopping at the first one that does not. The answer depends on the
/// file system, so no more can be promised of it.
pub fn check_files() -> bool {
    let fs = paths::files();
    let mut i: usize = 0;
    while i < fs.len()
        invariant
            i <= fs@.len(),
        decreases fs@.len() - i,
    {
        if !path_exists(fs[i].as_str()) {
            return false;
        }
        i += 1;
    }
    true
}

} // verus!
