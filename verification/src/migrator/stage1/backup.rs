//! Backups of volumes, archived with an external `tar`.
use vstd::prelude::*;

pub mod ext_tar_archiver;

verus! {

} // verus!
