//! The openat operation: once the base-directory handle has been resolved
//! and the path made absolute, it is an open.

use vstd::prelude::*;
use crate::errno::{spec_err_ret, spec_syscall_err, EMFILE, EPERM};
use crate::fd_allocator::{FdAllocator, FdDescModel};
use crate::syscalls::open;
use crate::wire::{req_wf, spec_parse_response, ReqModel, Request, RespModel, MAX_FIELD};

verus! {

/// Build the open request from the resolved, mount-relative path.
pub fn serialize_call(path: &Vec<u8>) -> (r: Request)
    requires
        path@.len() <= MAX_FIELD,
    ensures
        r@ == (ReqModel::Open { path: path@ }),
        req_wf(r@),
{
    open::serialize_req(path)
}

/// Interpret the response exactly as an open response: allocate the virtual
/// handle and forge its number as the new descriptor.
pub fn deserialize_ret(fd_allocator: &mut FdAllocator, data: &Vec<u8>) -> (ret: u64)
    requires
        old(fd_allocator).wf(),
        old(fd_allocator).has_current(),
    ensures
        final(fd_allocator).wf(),
        final(fd_allocator).has_current(),
        final(fd_allocator).current_prefix() == old(fd_allocator).current_prefix(),
        match spec_parse_response(data@) {
            Some(m) => match m {
                RespModel::Fd { id } => {
                    if id.len() <= MAX_FIELD {
                        ||| (exists|fd: u16| {
                            &&& ret == fd as u64
                            &&& !old(fd_allocator).table().contains_key(fd)
                            &&& final(fd_allocator).table() == old(fd_allocator).table().insert(
                                fd,
                                (FdDescModel {
                                    id: id,
                                    mountpoint: old(fd_allocator).current_prefix(),
                                }),
                            )
                        })
                        ||| (ret == spec_syscall_err(EMFILE) && final(fd_allocator).table() == old(fd_allocator).table())
                    } else {
                        ret == spec_syscall_err(EPERM) && final(fd_allocator).table() == old(fd_allocator).table()
                    }
                },
                RespModel::Error { code } => ret == spec_err_ret(code) && final(fd_allocator).table() == old(fd_allocator).table(),
                _ => ret == spec_syscall_err(EPERM) && final(fd_allocator).table() == old(fd_allocator).table(),
            },
            None => ret == spec_syscall_err(EPERM) && final(fd_allocator).table() == old(fd_allocator).table(),
        },
{
    open::deserialize_res(fd_allocator, data)
}

} // verus!
