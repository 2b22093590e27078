//! POSIX error codes the supervisor hands to the traced process, and the
//! register encoding of a failed syscall.

use vstd::prelude::*;

verus! {

pub const EPERM: u32 = 1;
pub const ESRCH: u32 = 3;
pub const EIO: u32 = 5;
pub const EBADF: u32 = 9;
pub const EACCES: u32 = 13;
pub const EMFILE: u32 = 24;

/// The return-register value of a syscall failing with `code`: the negated
/// code in two's complement.
pub open spec fn spec_syscall_err(code: u32) -> u64
    recommends
        code > 0,
{
    (0x1_0000_0000_0000_0000 - code) as u64
}

/// Encode an error code as a forged syscall return value.
pub fn syscall_err(code: u32) -> (r: u64)
    requires
        code > 0,
    ensures
        r == spec_syscall_err(code),
{
    u64::MAX - (code as u64) + 1
}

/// The forged return value for a backend-reported error: the code negated,
/// verbatim. A code of zero would forge success out of a reported failure,
/// so it counts as a malformed response and becomes permission-denied.
pub open spec fn spec_err_ret(code: u32) -> u64 {
    if code == 0 {
        spec_syscall_err(EACCES)
    } else {
        spec_syscall_err(code)
    }
}

/// Encode a backend-reported error code as a forged return value.
pub fn err_ret(code: u32) -> (r: u64)
    ensures
        r == spec_err_ret(code),
{
    if code == 0 {
        syscall_err(EACCES)
    } else {
        syscall_err(code)
    }
}

} // verus!
