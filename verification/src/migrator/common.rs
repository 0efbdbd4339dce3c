//! Helpers of the migrator: the same size, path and mount table functions as
//! the takeover program's, its options, errors and disk layout.
use vstd::prelude::*;

pub mod disk_util;
pub mod mig_error;
pub mod options;
pub mod stage2_config;

pub use crate::common::{
    file_exists, format_size_with_unit, mountpoint_in_mtab, os_name_from_release, path_append,
    pids_from_output,
};
pub use mig_error::{MigErrCtx, MigError, MigErrorKind};
pub use options::Options;

verus! {

/// Whether `name` is a directory, from its metadata; calls `Path::metadata`
/// and `Metadata::is_dir`, and returns `Err(())` where the metadata could not
/// be read. What the disk holds decides, so nothing is stated of the result.
#[verifier::external_body]
fn metadata_is_dir(name: &str) -> Result<bool, ()> {
    match std::path::Path::new(name).metadata() {
        Ok(m) => Ok(m.is_dir()),
        Err(_) => Err(()),
    }
}

/// What was found at a path, as an answer to whether a directory is there:
/// nothing where nothing exists, else whether its metadata is a directory's,
/// and an `Upstream` error where the metadata could not be read.
pub fn dir_from_metadata(exists: bool, is_dir: Result<bool, ()>) -> (r: Result<bool, MigError>)
    ensures
        !exists ==> (r matches Ok(b) && !b),
        exists ==> match is_dir {
            Ok(b) => r matches Ok(x) && x == b,
            Err(_) => r matches Err(e) && e.inner.kind == MigErrorKind::Upstream,
        },
{
    if !exists {
        Ok(false)
    } else {
        match is_dir {
            Ok(b) => Ok(b),
            Err(_) => Err(
                MigError::from_remark(
                    MigErrorKind::Upstream,
                    "dir_exists: failed to retrieve metadata for path",
                ),
            ),
        }
    }
}

/// Whether a directory is at `name` (see `dir_from_metadata`); the metadata is
/// read only where something exists there.
pub fn dir_exists(name: &str) -> (r: Result<bool, MigError>)
    ensures
        r matches Err(e) ==> e.inner.kind == MigErrorKind::Upstream,
{
    if file_exists(name) {
        dir_from_metadata(true, metadata_is_dir(name))
    } else {
        dir_from_metadata(false, Ok(false))
    }
}

} // verus!
