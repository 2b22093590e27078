//! The lstat operation. On the wire it shares the stat request and response
//! shapes; only which native structure the supervisor writes differs, and
//! for lstat that is the same `stat` structure.

use vstd::prelude::*;
use crate::errno::{spec_err_ret, spec_syscall_err, EPERM};
use crate::syscalls::stat;
use crate::syscalls::statbuf::stat_image;
use crate::wire::{req_wf, spec_parse_response, ReqModel, Request, RespModel, MAX_FIELD};

verus! {

/// Build the lstat request: the same stat message, carrying the
/// mount-relative path.
pub fn serialize_req(path: &Vec<u8>) -> (r: Request)
    requires
        path@.len() <= MAX_FIELD,
    ensures
        r@ == (ReqModel::Stat { path: path@ }),
        req_wf(r@),
{
    stat::serialize_call(path)
}

/// Interpret the lstat response exactly as a stat response.
pub fn deserialize_res(data: &Vec<u8>) -> (r: (Vec<u8>, u64))
    ensures
        match spec_parse_response(data@) {
            Some(m) => match m {
                RespModel::Stat { kind, size } => r.0@ == stat_image(kind, size) && r.1 == 0,
                RespModel::Error { code } => r.0@.len() == 0 && r.1 == spec_err_ret(code),
                _ => r.0@.len() == 0 && r.1 == spec_syscall_err(EPERM),
            },
            None => r.0@.len() == 0 && r.1 == spec_syscall_err(EPERM),
        },
{
    stat::deserialize_ret(data)
}

} // verus!
