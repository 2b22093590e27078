//! The supervisor's routing of one syscall-entry stop: classify the syscall,
//! resolve its path or handle, and either redirect it to the matched mount's
//! backend and forge its result, or let it run untouched.

use vstd::prelude::*;
use crate::dirfd_resolver::AT_FDCWD;
use crate::errno::{syscall_err, EBADF, EIO};
use crate::path::{copy_bytes, is_abs, join, relativize};
use crate::ptrace::{
    fake_syscall, read_str, wait_syscall, write_bytes, Regs, WaitEvent, PATH_CAP,
};
use crate::sockets::{mount_round_trip, Socket};
use crate::state::State;
use crate::syscalls::{close, fstat, getcwd, lstat, open, read, stat, statx};
use crate::wire::MAX_FIELD;

verus! {

pub const NR_READ: u64 = 0;
pub const NR_OPEN: u64 = 2;
pub const NR_CLOSE: u64 = 3;
pub const NR_STAT: u64 = 4;
pub const NR_FSTAT: u64 = 5;
pub const NR_LSTAT: u64 = 6;
pub const NR_EXECVE: u64 = 59;
pub const NR_GETCWD: u64 = 79;
pub const NR_OPENAT: u64 = 257;
pub const NR_EXECVEAT: u64 = 322;
pub const NR_STATX: u64 = 332;

/// The flag that makes the rewritten exec run its descriptor directly.
pub const AT_EMPTY_PATH_FLAG: u64 = 0x1000;

/// The fixed set of syscall numbers the supervisor intercepts; every other
/// syscall runs untouched.
pub open spec fn is_intercepted(nr: u64) -> bool {
    nr == NR_READ || nr == NR_OPEN || nr == NR_OPENAT || nr == NR_CLOSE || nr == NR_STAT
        || nr == NR_FSTAT || nr == NR_LSTAT || nr == NR_STATX || nr == NR_GETCWD
        || nr == NR_EXECVE
}

/// What handling one syscall-entry stop ended in.
pub enum RouteOutcome {
    /// The stop was handled; wait for the next one.
    Continue,
    /// The traced process exited with this status.
    Exited(i32),
    /// The traced process was killed by this signal.
    Signaled(i32),
}

/// Let the pending syscall run untouched: resume through its exit stop.
fn passthrough(pid: i32) -> (r: Result<RouteOutcome, i32>)
{
    match wait_syscall(pid) {
        Ok(WaitEvent::Stopped) => Ok(RouteOutcome::Continue),
        Ok(WaitEvent::Exited(c)) => Ok(RouteOutcome::Exited(c)),
        Ok(WaitEvent::Signaled(s)) => Ok(RouteOutcome::Signaled(s)),
        Err(e) => Err(e),
    }
}

/// A syscall's raw path argument, made absolute.
enum Resolved {
    /// The path could not be read out of traced memory, or is too long to
    /// route; the syscall runs untouched and the kernel reports what it
    /// will.
    Unreadable,
    /// The base-directory handle is one of our virtual handles or cannot be
    /// followed; resolution fails visibly rather than guessing a base.
    BadBase,
    /// The absolute path to match against the registry.
    Full(Vec<u8>),
}

/// Read a path argument out of traced memory and make it absolute: against
/// the base-directory handle where one is given, then against the tracked
/// working directory.
fn resolve_arg_path<S>(state: &State<S>, pid: i32, addr: u64, dirfd: Option<i32>) -> (r: Resolved)
    requires
        state.wf(),
    ensures
        r matches Resolved::Full(v) ==> is_abs(v@) && v@.len() <= MAX_FIELD,
{
    let raw = match read_str(pid, addr) {
        Ok(p) => p,
        Err(_) => {
            return Resolved::Unreadable;
        },
    };
    let based = match dirfd {
        None => raw,
        Some(dirfd) => {
            if dirfd != AT_FDCWD && dirfd >= 0 && dirfd <= 65535 {
                // a virtual handle is no valid base directory
                match state.fd_allocator.get_desc_for_fd(dirfd as u16) {
                    Some(_) => {
                        return Resolved::BadBase;
                    },
                    None => {},
                }
            }
            match state.dirfd_resolver.resolve(pid, dirfd, &raw) {
                Ok(p) => p,
                Err(_) => {
                    return Resolved::BadBase;
                },
            }
        },
    };
    let full = join(&state.cwd, &based);
    if full.len() > MAX_FIELD {
        return Resolved::Unreadable;
    }
    proof {
        assert(is_abs(full@));
    }
    Resolved::Full(full)
}

/// Route an open (or resolved openat): match the path against the registry,
/// send the relative path, and forge the allocated virtual handle number or
/// the error. A path outside every mount runs untouched and no backend is
/// spoken to; the state is then exactly as it was.
pub fn route_open<S: Socket>(
    state: &mut State<S>,
    regs: &Regs,
    pid: i32,
    full: &Vec<u8>,
) -> (r: Result<RouteOutcome, i32>)
    requires
        old(state).wf(),
        is_abs(full@),
        full@.len() <= MAX_FIELD,
    ensures
        final(state).wf(),
        final(state).cwd == old(state).cwd,
        !old(state).mounts.covers(full@) ==> *final(state) == *old(state),
{
    let prefix = match state.mounts.get_mount_of_path(full) {
        Some(m) => copy_bytes(&m.path),
        None => {
            return passthrough(pid);
        },
    };
    let rel = relativize(&prefix, full);
    state.fd_allocator.set_current_mountpoint(&prefix);
    let req = open::serialize_req(&rel);
    let resp = match mount_round_trip(&mut state.mounts, &prefix, &req) {
        Ok(v) => v,
        Err(e) => {
            return Err(e);
        },
    };
    let code = open::deserialize_res(&mut state.fd_allocator, &resp);
    match fake_syscall(pid, regs, code) {
        Ok(()) => Ok(RouteOutcome::Continue),
        Err(e) => Err(e),
    }
}

/// Route a close on one of our virtual handles: tell the backend, release
/// the handle on its empty success answer, and forge the result. A
/// descriptor that is not ours runs untouched.
pub fn route_close<S: Socket>(
    state: &mut State<S>,
    regs: &Regs,
    pid: i32,
    fd_arg: u64,
) -> (r: Result<RouteOutcome, i32>)
    requires
        old(state).wf(),
    ensures
        final(state).wf(),
        final(state).cwd == old(state).cwd,
        fd_arg > 65535 || !old(state).fd_allocator.table().contains_key(fd_arg as u16)
            ==> *final(state) == *old(state),
{
    if fd_arg > 65535 {
        return passthrough(pid);
    }
    let fd = fd_arg as u16;
    let (id, mountpoint) = match state.fd_allocator.get_desc_for_fd(fd) {
        Some(d) => (copy_bytes(&d.id), copy_bytes(&d.mountpoint)),
        None => {
            return passthrough(pid);
        },
    };
    if !state.mounts.has_mount(&mountpoint) {
        // the handle names a mount the registry does not hold; fail the
        // syscall rather than guess a channel
        match fake_syscall(pid, regs, syscall_err(EIO)) {
            Ok(()) => {
                return Ok(RouteOutcome::Continue);
            },
            Err(e) => {
                return Err(e);
            },
        }
    }
    let req = close::serialize_call(&id);
    let resp = match mount_round_trip(&mut state.mounts, &mountpoint, &req) {
        Ok(v) => v,
        Err(e) => {
            return Err(e);
        },
    };
    let code = close::deserialize_ret(&mut state.fd_allocator, fd, &resp);
    match fake_syscall(pid, regs, code) {
        Ok(()) => Ok(RouteOutcome::Continue),
        Err(e) => Err(e),
    }
}

/// Route a read on one of our virtual handles: ask the backend for the
/// requested length, plant the returned bytes cut to the caller's buffer
/// capacity, and forge how many bytes were planted. A descriptor that is not
/// ours runs untouched.
pub fn route_read<S: Socket>(
    state: &mut State<S>,
    regs: &Regs,
    pid: i32,
) -> (r: Result<RouteOutcome, i32>)
    requires
        old(state).wf(),
    ensures
        final(state).wf(),
        final(state).cwd == old(state).cwd,
        regs.arg0 > 65535 || !old(state).fd_allocator.table().contains_key(regs.arg0 as u16)
            ==> *final(state) == *old(state),
{
    if regs.arg0 > 65535 {
        return passthrough(pid);
    }
    let fd = regs.arg0 as u16;
    let (id, mountpoint) = match state.fd_allocator.get_desc_for_fd(fd) {
        Some(d) => (copy_bytes(&d.id), copy_bytes(&d.mountpoint)),
        None => {
            return passthrough(pid);
        },
    };
    if !state.mounts.has_mount(&mountpoint) {
        match fake_syscall(pid, regs, syscall_err(EIO)) {
            Ok(()) => {
                return Ok(RouteOutcome::Continue);
            },
            Err(e) => {
                return Err(e);
            },
        }
    }
    let cap: usize = if regs.arg2 > (usize::MAX as u64) {
        usize::MAX
    } else {
        regs.arg2 as usize
    };
    let req = read::serialize_req(&id, regs.arg2);
    let resp = match mount_round_trip(&mut state.mounts, &mountpoint, &req) {
        Ok(v) => v,
        Err(e) => {
            return Err(e);
        },
    };
    let out = read::deserialize_res(&resp, cap);
    match write_bytes(pid, regs.arg1, &out.0, out.0.len()) {
        Ok(()) => {},
        Err(e) => {
            return Err(e);
        },
    }
    match fake_syscall(pid, regs, out.1) {
        Ok(()) => Ok(RouteOutcome::Continue),
        Err(e) => Err(e),
    }
}

/// Which native structure a stat-family syscall plants in the caller's
/// buffer.
pub enum StatShape {
    Stat,
    Lstat,
    Statx,
}

/// Route a path-based stat-family syscall: send the relative path, fabricate
/// the native structure from the answer, plant it, and forge zero or the
/// error. A path outside every mount runs untouched and no backend is spoken
/// to; the state is then exactly as it was.
pub fn route_stat_path<S: Socket>(
    state: &mut State<S>,
    regs: &Regs,
    pid: i32,
    full: &Vec<u8>,
    out_addr: u64,
    shape: StatShape,
) -> (r: Result<RouteOutcome, i32>)
    requires
        old(state).wf(),
        is_abs(full@),
        full@.len() <= MAX_FIELD,
    ensures
        final(state).wf(),
        final(state).cwd == old(state).cwd,
        !old(state).mounts.covers(full@) ==> *final(state) == *old(state),
{
    let prefix = match state.mounts.get_mount_of_path(full) {
        Some(m) => copy_bytes(&m.path),
        None => {
            return passthrough(pid);
        },
    };
    let rel = relativize(&prefix, full);
    let req = match shape {
        StatShape::Stat => stat::serialize_call(&rel),
        StatShape::Lstat => lstat::serialize_req(&rel),
        StatShape::Statx => statx::serialize_call(&rel),
    };
    let resp = match mount_round_trip(&mut state.mounts, &prefix, &req) {
        Ok(v) => v,
        Err(e) => {
            return Err(e);
        },
    };
    let out = match shape {
        StatShape::Stat => stat::deserialize_ret(&resp),
        StatShape::Lstat => lstat::deserialize_res(&resp),
        StatShape::Statx => statx::deserialize_ret(&resp),
    };
    if out.0.len() > 0 {
        match write_bytes(pid, out_addr, &out.0, out.0.len()) {
            Ok(()) => {},
            Err(e) => {
                return Err(e);
            },
        }
    }
    match fake_syscall(pid, regs, out.1) {
        Ok(()) => Ok(RouteOutcome::Continue),
        Err(e) => Err(e),
    }
}

/// Route an fstat on one of our virtual handles. A descriptor that is not
/// ours runs untouched.
pub fn route_fstat<S: Socket>(
    state: &mut State<S>,
    regs: &Regs,
    pid: i32,
) -> (r: Result<RouteOutcome, i32>)
    requires
        old(state).wf(),
    ensures
        final(state).wf(),
        final(state).cwd == old(state).cwd,
        regs.arg0 > 65535 || !old(state).fd_allocator.table().contains_key(regs.arg0 as u16)
            ==> *final(state) == *old(state),
{
    if regs.arg0 > 65535 {
        return passthrough(pid);
    }
    let fd = regs.arg0 as u16;
    let (id, mountpoint) = match state.fd_allocator.get_desc_for_fd(fd) {
        Some(d) => (copy_bytes(&d.id), copy_bytes(&d.mountpoint)),
        None => {
            return passthrough(pid);
        },
    };
    if !state.mounts.has_mount(&mountpoint) {
        match fake_syscall(pid, regs, syscall_err(EIO)) {
            Ok(()) => {
                return Ok(RouteOutcome::Continue);
            },
            Err(e) => {
                return Err(e);
            },
        }
    }
    let req = fstat::serialize_call(&id);
    let resp = match mount_round_trip(&mut state.mounts, &mountpoint, &req) {
        Ok(v) => v,
        Err(e) => {
            return Err(e);
        },
    };
    let out = fstat::deserialize_ret(&resp);
    if out.0.len() > 0 {
        match write_bytes(pid, regs.arg1, &out.0, out.0.len()) {
            Ok(()) => {},
            Err(e) => {
                return Err(e);
            },
        }
    }
    match fake_syscall(pid, regs, out.1) {
        Ok(()) => Ok(RouteOutcome::Continue),
        Err(e) => Err(e),
    }
}

/// Route a getcwd: plant the tracked working directory, cut to the caller's
/// buffer capacity and followed by its terminator where there is room, and
/// forge success; whatever mounts are configured, no backend is involved.
pub fn route_getcwd<S: Socket>(
    state: &mut State<S>,
    regs: &Regs,
    pid: i32,
) -> (r: Result<RouteOutcome, i32>)
    requires
        old(state).wf(),
    ensures
        final(state).wf(),
        *final(state) == *old(state),
{
    let out = getcwd::handler(&state.cwd);
    let want = out.0.len() + 1;
    let len: usize = if regs.arg1 > (want as u64) {
        want
    } else {
        regs.arg1 as usize
    };
    match write_bytes(pid, regs.arg0, &out.0, len) {
        Ok(()) => {},
        Err(e) => {
            return Err(e);
        },
    }
    match fake_syscall(pid, regs, out.1) {
        Ok(()) => Ok(RouteOutcome::Continue),
        Err(e) => Err(e),
    }
}

/// Route an exec of a path under a mount: stage the remote file locally and
/// rewrite the pending syscall to run it. A path outside every mount runs
/// untouched.
fn route_execve<S: Socket>(
    state: &mut State<S>,
    regs: &Regs,
    pid: i32,
) -> (r: Result<RouteOutcome, i32>)
    requires
        old(state).wf(),
    ensures
        final(state).wf(),
        final(state).cwd == old(state).cwd,
{
    if regs.arg0 > u64::MAX - (PATH_CAP as u64) - 8 {
        return passthrough(pid);
    }
    let raw = match read_str(pid, regs.arg0) {
        Ok(p) => p,
        Err(_) => {
            return passthrough(pid);
        },
    };
    let full = join(&state.cwd, &raw);
    if full.len() > MAX_FIELD {
        return passthrough(pid);
    }
    let prefix = match state.mounts.get_mount_of_path(&full) {
        Some(m) => copy_bytes(&m.path),
        None => {
            return passthrough(pid);
        },
    };
    let rel = relativize(&prefix, &full);
    // the terminator of the original path string is an empty string in the
    // traced process's own memory
    let empty_str_addr = regs.arg0 + raw.len() as u64;
    crate::syscalls::execve::handler(state, pid, regs, &prefix, &rel, empty_str_addr)
}

/// Handle one syscall-entry stop: an intercepted syscall whose path or
/// handle is ours is redirected and its result forged; everything else runs
/// untouched. The tracked working directory never changes.
pub fn route<S: Socket>(state: &mut State<S>, regs: &Regs, pid: i32) -> (r: Result<
    RouteOutcome,
    i32,
>)
    requires
        old(state).wf(),
    ensures
        final(state).wf(),
        final(state).cwd == old(state).cwd,
        !is_intercepted(regs.syscall_nr) ==> *final(state) == *old(state),
{
    if regs.syscall_nr == NR_READ {
        route_read(state, regs, pid)
    } else if regs.syscall_nr == NR_OPEN {
        match resolve_arg_path(state, pid, regs.arg0, None) {
            Resolved::Unreadable => passthrough(pid),
            Resolved::BadBase => match fake_syscall(pid, regs, syscall_err(EBADF)) {
                Ok(()) => Ok(RouteOutcome::Continue),
                Err(e) => Err(e),
            },
            Resolved::Full(full) => route_open(state, regs, pid, &full),
        }
    } else if regs.syscall_nr == NR_OPENAT {
        let dirfd = cast_dirfd(regs.arg0);
        match resolve_arg_path(state, pid, regs.arg1, Some(dirfd)) {
            Resolved::Unreadable => passthrough(pid),
            Resolved::BadBase => match fake_syscall(pid, regs, syscall_err(EBADF)) {
                Ok(()) => Ok(RouteOutcome::Continue),
                Err(e) => Err(e),
            },
            Resolved::Full(full) => route_open(state, regs, pid, &full),
        }
    } else if regs.syscall_nr == NR_CLOSE {
        route_close(state, regs, pid, regs.arg0)
    } else if regs.syscall_nr == NR_STAT {
        match resolve_arg_path(state, pid, regs.arg0, None) {
            Resolved::Unreadable => passthrough(pid),
            Resolved::BadBase => match fake_syscall(pid, regs, syscall_err(EBADF)) {
                Ok(()) => Ok(RouteOutcome::Continue),
                Err(e) => Err(e),
            },
            Resolved::Full(full) => route_stat_path(
                state,
                regs,
                pid,
                &full,
                regs.arg1,
                StatShape::Stat,
            ),
        }
    } else if regs.syscall_nr == NR_LSTAT {
        match resolve_arg_path(state, pid, regs.arg0, None) {
            Resolved::Unreadable => passthrough(pid),
            Resolved::BadBase => match fake_syscall(pid, regs, syscall_err(EBADF)) {
                Ok(()) => Ok(RouteOutcome::Continue),
                Err(e) => Err(e),
            },
            Resolved::Full(full) => route_stat_path(
                state,
                regs,
                pid,
                &full,
                regs.arg1,
                StatShape::Lstat,
            ),
        }
    } else if regs.syscall_nr == NR_FSTAT {
        route_fstat(state, regs, pid)
    } else if regs.syscall_nr == NR_STATX {
        match resolve_arg_path(state, pid, regs.arg1, None) {
            Resolved::Unreadable => passthrough(pid),
            Resolved::BadBase => match fake_syscall(pid, regs, syscall_err(EBADF)) {
                Ok(()) => Ok(RouteOutcome::Continue),
                Err(e) => Err(e),
            },
            Resolved::Full(full) => route_stat_path(
                state,
                regs,
                pid,
                &full,
                regs.arg4,
                StatShape::Statx,
            ),
        }
    } else if regs.syscall_nr == NR_GETCWD {
        route_getcwd(state, regs, pid)
    } else if regs.syscall_nr == NR_EXECVE {
        route_execve(state, regs, pid)
    } else {
        passthrough(pid)
    }
}

/// The low half of a register holding a signed descriptor argument.
fn cast_dirfd(arg: u64) -> (r: i32)
{
    #[verifier::truncate]
    let r = arg as i32;
    r
}

} // verus!
