//! The getcwd operation: answered entirely from the tracked working
//! directory, whatever mounts are configured; no backend round trip.

use vstd::prelude::*;
use crate::path::copy_bytes;

verus! {

/// The bytes to plant in the caller's buffer and the forged result: exactly
/// the tracked working directory, and success.
pub fn handler(cwd: &Vec<u8>) -> (r: (Vec<u8>, u64))
    ensures
        r.0@ == cwd@,
        r.1 == 0,
{
    (copy_bytes(cwd), 0)
}

} // verus!
