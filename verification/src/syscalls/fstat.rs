//! The fstat operation: the handle variant of stat. The request carries the
//! handle's backend file identifier; the response shape is the stat payload.

use vstd::prelude::*;
use crate::errno::{err_ret, spec_err_ret, spec_syscall_err, syscall_err, EACCES};
use crate::path::copy_bytes;
use crate::syscalls::statbuf::{encode_stat_struct, stat_image};
use crate::wire::{
    parse_response, req_wf, spec_parse_response, ReqModel, Request, RespModel, Response, MAX_FIELD,
};

verus! {

/// Build the fstat request from the handle's backend file identifier.
pub fn serialize_call(id: &Vec<u8>) -> (r: Request)
    requires
        id@.len() <= MAX_FIELD,
    ensures
        r@ == (ReqModel::Fstat { id: id@ }),
        req_wf(r@),
{
    Request::Fstat { id: copy_bytes(id) }
}

/// Interpret the fstat response: a type-and-size payload becomes the
/// fabricated native `stat` structure and a forged zero; a reported error is
/// negated verbatim; anything else is a protocol error.
pub fn deserialize_ret(data: &Vec<u8>) -> (r: (Vec<u8>, u64))
    ensures
        match spec_parse_response(data@) {
            Some(m) => match m {
                RespModel::Stat { kind, size } => r.0@ == stat_image(kind, size) && r.1 == 0,
                RespModel::Error { code } => r.0@.len() == 0 && r.1 == spec_err_ret(code),
                _ => r.0@.len() == 0 && r.1 == spec_syscall_err(EACCES),
            },
            None => r.0@.len() == 0 && r.1 == spec_syscall_err(EACCES),
        },
{
    match parse_response(data) {
        Some(Response::Stat { kind, size }) => (encode_stat_struct(kind, size), 0),
        Some(Response::Error { code }) => (Vec::new(), err_ret(code)),
        Some(_) => (Vec::new(), syscall_err(EACCES)),
        None => (Vec::new(), syscall_err(EACCES)),
    }
}

} // verus!
