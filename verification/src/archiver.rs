//! Naming of the container file that the archiver produces.
//!
//! Archiving itself — serializing the staging root into a single file and
//! reclaiming the directory on success — is filesystem work performed by
//! the caller; the library fixes what the container is called.
use crate::paths::{append_to_last, append_to_last_spec, FsPath, PathModel};
use vstd::prelude::*;

verus! {

/// The container file's path: `.tar` appended to the staging root's name,
/// so the container stands beside where the staging root stood.
pub open spec fn container_name_spec(dir: PathModel) -> PathModel {
    append_to_last_spec(dir, seq!['.', 't', 'a', 'r'])
}

/// Computes the container file's path for a staging root.
pub fn container_file_name(dir: &FsPath) -> (r: FsPath)
    ensures
        r@ == container_name_spec(dir@),
{
    proof {
        reveal_strlit(".tar");
        assert(".tar"@ =~= seq!['.', 't', 'a', 'r']);
    }
    append_to_last(dir, ".tar")
}

} // verus!
