//! The open operation: the request carries the path relative to the matched
//! mount; a success response carries the backend's file identifier, for
//! which a virtual handle is allocated and returned as the new descriptor.

use vstd::prelude::*;
use crate::errno::{err_ret, spec_err_ret, spec_syscall_err, syscall_err, EMFILE, EPERM};
use crate::fd_allocator::{FdAllocator, FdDescModel};
use crate::path::copy_bytes;
use crate::wire::{
    parse_response, req_wf, spec_parse_response, ReqModel, Request, RespModel, Response, MAX_FIELD,
};

verus! {

/// Build the open request from the mount-relative path.
pub fn serialize_req(path: &Vec<u8>) -> (r: Request)
    requires
        path@.len() <= MAX_FIELD,
    ensures
        r@ == (ReqModel::Open { path: path@ }),
        req_wf(r@),
{
    Request::Open { path: copy_bytes(path) }
}

/// Interpret the open response: a file identifier allocates a virtual handle
/// whose number becomes the forged descriptor; a reported error is negated
/// verbatim; anything else is a protocol error. When no handle number can be
/// reserved the forged result is resource exhaustion, and no compensating
/// close is sent: the remote file stays open in the backend's own
/// bookkeeping (a deliberate, recorded choice).
pub fn deserialize_res(fd_allocator: &mut FdAllocator, data: &Vec<u8>) -> (ret: u64)
    requires
        old(fd_allocator).wf(),
        old(fd_allocator).has_current(),
    ensures
        final(fd_allocator).wf(),
        final(fd_allocator).has_current(),
        final(fd_allocator).current_prefix() == old(fd_allocator).current_prefix(),
        match spec_parse_response(data@) {
            Some(m) => match m {
                RespModel::Fd { id } => {
                    if id.len() <= MAX_FIELD {
                        ||| (exists|fd: u16| {
                            &&& ret == fd as u64
                            &&& !old(fd_allocator).table().contains_key(fd)
                            &&& final(fd_allocator).table() == old(fd_allocator).table().insert(
                                fd,
                                (FdDescModel {
                                    id: id,
                                    mountpoint: old(fd_allocator).current_prefix(),
                                }),
                            )
                        })
                        ||| (ret == spec_syscall_err(EMFILE) && final(fd_allocator).table() == old(fd_allocator).table())
                    } else {
                        ret == spec_syscall_err(EPERM) && final(fd_allocator).table() == old(fd_allocator).table()
                    }
                },
                RespModel::Error { code } => ret == spec_err_ret(code) && final(fd_allocator).table() == old(fd_allocator).table(),
                _ => ret == spec_syscall_err(EPERM) && final(fd_allocator).table() == old(fd_allocator).table(),
            },
            None => ret == spec_syscall_err(EPERM) && final(fd_allocator).table() == old(fd_allocator).table(),
        },
{
    match parse_response(data) {
        Some(Response::Fd { id }) => {
            if id.len() <= MAX_FIELD {
                match fd_allocator.allocate_fd(&id) {
                    Ok(fd) => fd as u64,
                    Err(_) => syscall_err(EMFILE),
                }
            } else {
                syscall_err(EPERM)
            }
        },
        Some(Response::Error { code }) => err_ret(code),
        Some(_) => syscall_err(EPERM),
        None => syscall_err(EPERM),
    }
}

} // verus!
