//! The migrator: stage 1 prepares the device, stage 2 flashes it.
use vstd::prelude::*;

pub mod common;
pub mod init;
pub mod stage1;
pub mod stage2;

verus! {

} // verus!
