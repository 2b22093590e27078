//! The stat operation: the request carries the mount-relative path; the
//! response's coarse type and size become a fabricated native `stat`
//! structure.

use vstd::prelude::*;
use crate::errno::{err_ret, spec_err_ret, spec_syscall_err, syscall_err, EPERM};
use crate::path::copy_bytes;
use crate::syscalls::statbuf::{encode_stat_struct, stat_image};
use crate::wire::{
    parse_response, req_wf, spec_parse_response, ReqModel, Request, RespModel, Response, MAX_FIELD,
};

verus! {

/// Build the stat request from the mount-relative path.
pub fn serialize_call(path: &Vec<u8>) -> (r: Request)
    requires
        path@.len() <= MAX_FIELD,
    ensures
        r@ == (ReqModel::Stat { path: path@ }),
        req_wf(r@),
{
    Request::Stat { path: copy_bytes(path) }
}

/// Interpret the stat response: a type-and-size payload becomes the
/// fabricated native structure and a forged zero; a reported error is
/// negated verbatim; anything else is a protocol error.
pub fn deserialize_ret(data: &Vec<u8>) -> (r: (Vec<u8>, u64))
    ensures
        match spec_parse_response(data@) {
            Some(m) => match m {
                RespModel::Stat { kind, size } => r.0@ == stat_image(kind, size) && r.1 == 0,
                RespModel::Error { code } => r.0@.len() == 0 && r.1 == spec_err_ret(code),
                _ => r.0@.len() == 0 && r.1 == spec_syscall_err(EPERM),
            },
            None => r.0@.len() == 0 && r.1 == spec_syscall_err(EPERM),
        },
{
    match parse_response(data) {
        Some(Response::Stat { kind, size }) => (encode_stat_struct(kind, size), 0),
        Some(Response::Error { code }) => (Vec::new(), err_ret(code)),
        Some(_) => (Vec::new(), syscall_err(EPERM)),
        None => (Vec::new(), syscall_err(EPERM)),
    }
}

} // verus!
