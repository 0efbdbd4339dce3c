//! Text in the buffers of the migrator's loop device records.
use vstd::prelude::*;

use crate::common::loop_device::{lemma_nul_index, nul_index, nul_index_exec};
use crate::common::{lossy_utf8, utf8_lossy};
use crate::migrator::common::mig_error::MigError;

pub use crate::common::loop_device::{key_to_string, path_to_cbuffer, LoopInfo64};

verus! {

fn prefix_to_nul(s: &[u8]) -> (r: Vec<u8>)
    ensures
        r@ == s@.take(nul_index(s@) as int),
{
    let k = nul_index_exec(s);
    proof {
        lemma_nul_index(s@);
    }
    let mut v: Vec<u8> = Vec::new();
    let mut i: usize = 0;
    while i < k
        invariant
            i <= k <= s@.len(),
            v@ =~= s@.take(i as int),
        decreases k - i,
    {
        v.push(s[i]);
        i = i + 1;
    }
    v
}

/// The text of a byte buffer: its bytes before the first NUL (all of them
/// where there is none), decoded as `from_utf8_lossy` does. Such bytes always
/// make a C string, so the result is never an error.
pub fn u8_slice_to_string(s: &[u8]) -> (r: Result<String, MigError>)
    ensures
        r matches Ok(x) && x@ == lossy_utf8(s@.take(nul_index(s@) as int)),
{
    let v = prefix_to_nul(s);
    Ok(utf8_lossy(v.as_slice()))
}

/// The text of a NUL terminated buffer: its bytes before the first NUL,
/// decoded as `from_utf8_lossy` does.
pub fn cbuffer_to_string(buffer: &[u8]) -> (r: String)
    requires
        nul_index(buffer@) < buffer@.len(),
    ensures
        r@ == lossy_utf8(buffer@.take(nul_index(buffer@) as int)),
{
    let v = prefix_to_nul(buffer);
    utf8_lossy(v.as_slice())
}

} // verus!
