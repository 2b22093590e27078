//! The close operation: the request carries the handle's backend file
//! identifier; an empty success response releases the virtual handle.

use vstd::prelude::*;
use crate::errno::{err_ret, spec_err_ret, spec_syscall_err, syscall_err, EACCES};
use crate::fd_allocator::FdAllocator;
use crate::path::copy_bytes;
use crate::wire::{
    parse_response, req_wf, spec_parse_response, ReqModel, Request, RespModel, Response, MAX_FIELD,
};

verus! {

/// Build the close request from the handle's backend file identifier.
pub fn serialize_call(id: &Vec<u8>) -> (r: Request)
    requires
        id@.len() <= MAX_FIELD,
    ensures
        r@ == (ReqModel::Close { id: id@ }),
        req_wf(r@),
{
    Request::Close { id: copy_bytes(id) }
}

/// Interpret the close response: the empty success payload releases the
/// virtual handle and forges zero; a reported error is negated verbatim and
/// the handle stays; anything else is a protocol error and the handle stays.
pub fn deserialize_ret(fd_allocator: &mut FdAllocator, fd: u16, data: &Vec<u8>) -> (ret: u64)
    requires
        old(fd_allocator).wf(),
    ensures
        final(fd_allocator).wf(),
        final(fd_allocator).has_current() == old(fd_allocator).has_current(),
        old(fd_allocator).has_current() ==> final(fd_allocator).current_prefix() == old(fd_allocator).current_prefix(),
        match spec_parse_response(data@) {
            Some(m) => match m {
                RespModel::Empty => ret == 0 && final(fd_allocator).table() == old(fd_allocator).table().remove(fd),
                RespModel::Error { code } => ret == spec_err_ret(code) && final(fd_allocator).table() == old(fd_allocator).table(),
                _ => ret == spec_syscall_err(EACCES) && final(fd_allocator).table() == old(fd_allocator).table(),
            },
            None => ret == spec_syscall_err(EACCES) && final(fd_allocator).table() == old(fd_allocator).table(),
        },
{
    match parse_response(data) {
        Some(Response::Empty) => {
            fd_allocator.drop_fd(fd);
            0
        },
        Some(Response::Error { code }) => err_ret(code),
        Some(_) => syscall_err(EACCES),
        None => syscall_err(EACCES),
    }
}

} // verus!
