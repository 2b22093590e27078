//! The read operation: the request carries the backend file identifier and
//! the requested length; the response carries raw bytes, which are cut to
//! the caller's buffer capacity. A zero-length answer is end-of-data.

use vstd::prelude::*;
use crate::errno::{err_ret, spec_err_ret, spec_syscall_err, syscall_err, EACCES};
use crate::path::copy_bytes;
use crate::wire::{
    parse_response, req_wf, spec_parse_response, subvec, ReqModel, Request, RespModel, Response,
    MAX_FIELD,
};

verus! {

/// Build the read request from the handle's backend file identifier and the
/// requested length.
pub fn serialize_req(id: &Vec<u8>, len: u64) -> (r: Request)
    requires
        id@.len() <= MAX_FIELD,
    ensures
        r@ == (ReqModel::Read { id: id@, len: len }),
        req_wf(r@),
{
    Request::Read { id: copy_bytes(id), len }
}

/// Interpret the read response against the caller's buffer capacity: the
/// returned bytes are the backend's bytes cut to the capacity, and the
/// forged result is exactly how many bytes are returned; a shorter answer
/// reports its own shorter length. A reported error is negated verbatim;
/// anything else is a protocol error.
pub fn deserialize_res(data: &Vec<u8>, cap: usize) -> (r: (Vec<u8>, u64))
    ensures
        match spec_parse_response(data@) {
            Some(m) => match m {
                RespModel::Data { data: d } => {
                    &&& r.0@ == (if d.len() <= cap {
                        d
                    } else {
                        d.subrange(0, cap as int)
                    })
                    &&& r.1 == r.0@.len()
                },
                RespModel::Error { code } => r.0@.len() == 0 && r.1 == spec_err_ret(code),
                _ => r.0@.len() == 0 && r.1 == spec_syscall_err(EACCES),
            },
            None => r.0@.len() == 0 && r.1 == spec_syscall_err(EACCES),
        },
{
    match parse_response(data) {
        Some(Response::Data { data: d }) => {
            if d.len() <= cap {
                let n = d.len();
                (d, n as u64)
            } else {
                let cut = subvec(&d, 0, cap);
                (cut, cap as u64)
            }
        },
        Some(Response::Error { code }) => (Vec::new(), err_ret(code)),
        Some(_) => (Vec::new(), syscall_err(EACCES)),
        None => (Vec::new(), syscall_err(EACCES)),
    }
}

} // verus!
