//! Verified core of the balenaOS takeover tool: the parsers, decisions and
//! bookkeeping that the migration runs on, with their contracts.
#![allow(unused_imports)]

pub mod text;
pub mod common;
pub mod init;
pub mod migrator;
pub mod stage1;

use vstd::prelude::*;

verus! {

} // verus!
