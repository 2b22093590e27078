//! The exec operation: the file to run exists only on a backend, so it is
//! fetched (an open, a bounded loop of reads, a close) into a fresh local
//! anonymous file, and the pending syscall is rewritten to execute that file
//! by descriptor. This is the one operation that drives several backend
//! round trips and rewrites the pending syscall's arguments rather than
//! merely its return value.

use vstd::prelude::*;
use crate::errno::{spec_err_ret, spec_syscall_err, syscall_err, EIO, EMFILE, EPERM};
use crate::path::copy_bytes;
use crate::ptrace::{fake_syscall, set_regs, wait_syscall, Regs, WaitEvent};
use crate::router::{RouteOutcome, AT_EMPTY_PATH_FLAG, NR_EXECVEAT};
use crate::sockets::{mount_round_trip, Socket};
use crate::state::{anon_exec_file, close_raw, State};
use crate::syscalls::{close, open, read};
use crate::wire::MAX_FIELD;

verus! {

/// How many bytes one staging read asks the backend for.
pub const EXEC_CHUNK: u64 = 65536;

/// How many read round trips the staging loop is bounded by.
pub const EXEC_ROUNDS: u32 = 0x10_0000;

/// Relies on nix::unistd::write: hands the bytes from `offset` on to the
/// file, reporting how many were taken, never more than were handed in.
#[verifier::external_body]
fn write_fd(fd: i32, buf: &Vec<u8>, offset: usize) -> (r: Result<usize, i32>)
    requires
        offset <= buf@.len(),
    ensures
        r matches Ok(n) ==> n <= buf@.len() - offset,
{
    match nix::unistd::write(fd, &buf[offset..]) {
        Ok(n) => Ok(n),
        Err(e) => Err(e as i32),
    }
}

/// Write a whole buffer into the staging file; a write that takes nothing is
/// an error.
fn write_all(fd: i32, buf: &Vec<u8>) -> (r: Result<(), i32>)
{
    let n = buf.len();
    let mut written: usize = 0;
    while written < n
        invariant
            n == buf@.len(),
            written <= n,
        decreases n - written,
    {
        match write_fd(fd, buf, written) {
            Ok(k) => {
                if k == 0 {
                    return Err(EIO as i32);
                }
                written = written + k;
            },
            Err(e) => {
                return Err(e);
            },
        }
    }
    Ok(())
}

/// Fetch the remote file behind `relpath` and rewrite the pending syscall to
/// execute it by local descriptor. `empty_str_addr` must point at a zero
/// byte in the traced process; the terminator of the original path string
/// serves, so the rewritten call's path argument names the empty string.
///
/// Backend-reported and protocol errors are forged as the syscall's result;
/// only trace-control failures and a torn backend channel are fatal.
pub fn handler<S: Socket>(
    state: &mut State<S>,
    pid: i32,
    regs: &Regs,
    mountpoint: &Vec<u8>,
    relpath: &Vec<u8>,
    empty_str_addr: u64,
) -> (r: Result<RouteOutcome, i32>)
    requires
        old(state).wf(),
        old(state).mounts.has_exact(mountpoint@),
        relpath@.len() <= MAX_FIELD,
    ensures
        final(state).wf(),
        final(state).cwd == old(state).cwd,
{
    // open the remote file, allocating a virtual handle for it
    state.fd_allocator.set_current_mountpoint(mountpoint);
    let req = open::serialize_req(relpath);
    let resp = match mount_round_trip(&mut state.mounts, mountpoint, &req) {
        Ok(v) => v,
        Err(e) => {
            return Err(e);
        },
    };
    let code = open::deserialize_res(&mut state.fd_allocator, &resp);
    if code > 65535 {
        // an error, already in forged form
        match fake_syscall(pid, regs, code) {
            Ok(()) => {
                return Ok(RouteOutcome::Continue);
            },
            Err(e) => {
                return Err(e);
            },
        }
    }
    let vfd = code as u16;
    proof {
        // every failing outcome forges a negated error code, far above any
        // descriptor number, so a small value means the handle was inserted
        assert(spec_syscall_err(EPERM) > 65535);
        assert(spec_syscall_err(EMFILE) > 65535);
        assert(forall|c: u32| #[trigger] spec_err_ret(c) > 65535);
        assert(state.fd_allocator.table().contains_key(vfd));
    }
    let id = match state.fd_allocator.get_desc_for_fd(vfd) {
        Some(d) => copy_bytes(&d.id),
        None => {
            proof {
                assert(false);
            }
            vstd::pervasive::unreached()
        },
    };
    // a fresh anonymous file to stage the contents into
    let newfd = match anon_exec_file() {
        Ok(fd) => fd,
        Err(_) => {
            state.fd_allocator.drop_fd(vfd);
            match fake_syscall(pid, regs, syscall_err(EMFILE)) {
                Ok(()) => {
                    return Ok(RouteOutcome::Continue);
                },
                Err(e) => {
                    return Err(e);
                },
            }
        },
    };
    if newfd > 65535 {
        close_raw(newfd);
        state.fd_allocator.drop_fd(vfd);
        match fake_syscall(pid, regs, syscall_err(EMFILE)) {
            Ok(()) => {
                return Ok(RouteOutcome::Continue);
            },
            Err(e) => {
                return Err(e);
            },
        }
    }
    // the bounded read loop: accumulate until a zero-length answer
    let mut fuel: u32 = EXEC_ROUNDS;
    loop
        invariant
            state.wf(),
            state.mounts.has_exact(mountpoint@),
            state.cwd == old(state).cwd,
            id@.len() <= MAX_FIELD,
        decreases fuel,
    {
        if fuel == 0 {
            close_raw(newfd);
            state.fd_allocator.drop_fd(vfd);
            match fake_syscall(pid, regs, syscall_err(EIO)) {
                Ok(()) => {
                    return Ok(RouteOutcome::Continue);
                },
                Err(e) => {
                    return Err(e);
                },
            }
        }
        fuel = fuel - 1;
        let req = read::serialize_req(&id, EXEC_CHUNK);
        let resp = match mount_round_trip(&mut state.mounts, mountpoint, &req) {
            Ok(v) => v,
            Err(e) => {
                close_raw(newfd);
                return Err(e);
            },
        };
        let chunk = read::deserialize_res(&resp, 65536);
        if chunk.1 > 65536 {
            // a backend or protocol error, already in forged form
            close_raw(newfd);
            state.fd_allocator.drop_fd(vfd);
            match fake_syscall(pid, regs, chunk.1) {
                Ok(()) => {
                    return Ok(RouteOutcome::Continue);
                },
                Err(e) => {
                    return Err(e);
                },
            }
        }
        if chunk.0.len() == 0 {
            // end of data
            break;
        }
        match write_all(newfd, &chunk.0) {
            Ok(()) => {},
            Err(e) => {
                close_raw(newfd);
                return Err(e);
            },
        }
    }
    // close the remote file, releasing the virtual handle
    let req = close::serialize_call(&id);
    let resp = match mount_round_trip(&mut state.mounts, mountpoint, &req) {
        Ok(v) => v,
        Err(e) => {
            close_raw(newfd);
            return Err(e);
        },
    };
    let code = close::deserialize_ret(&mut state.fd_allocator, vfd, &resp);
    if code != 0 {
        close_raw(newfd);
        match fake_syscall(pid, regs, code) {
            Ok(()) => {
                return Ok(RouteOutcome::Continue);
            },
            Err(e) => {
                return Err(e);
            },
        }
    }
    // swap the staged file in and rewrite the pending syscall to run it
    close_raw(state.execve_fd as i32);
    state.execve_fd = newfd as u16;
    let regs2 = regs.with_call(
        NR_EXECVEAT,
        state.execve_fd as u64,
        empty_str_addr,
        0,
        0,
        AT_EMPTY_PATH_FLAG,
    );
    match set_regs(pid, &regs2) {
        Ok(()) => {},
        Err(e) => {
            return Err(e);
        },
    }
    match wait_syscall(pid) {
        Ok(WaitEvent::Stopped) => Ok(RouteOutcome::Continue),
        Ok(WaitEvent::Exited(c)) => Ok(RouteOutcome::Exited(c)),
        Ok(WaitEvent::Signaled(s)) => Ok(RouteOutcome::Signaled(s)),
        Err(e) => Err(e),
    }
}

} // verus!
