//! The supervisor's state: the mount registry, the virtual handle table, the
//! working directory captured once at startup, and the local anonymous file
//! that a remote executable is staged into.

use vstd::prelude::*;
use crate::dirfd_resolver::DirFdResolver;
use crate::errno::EMFILE;
use crate::fd_allocator::FdAllocator;
use crate::mounts::Mounts;
use crate::path::is_abs;
use crate::ptrace::PATH_CAP;

verus! {

/// Everything the supervisor owns while tracing one process.
///
/// The working directory is captured once when the state is built and is not
/// kept in sync with the traced process's own directory changes; a caller
/// relying on a `chdir` made after startup will see the stale view.
pub struct State<S> {
    pub mounts: Mounts<S>,
    pub fd_allocator: FdAllocator,
    pub cwd: Vec<u8>,
    pub dirfd_resolver: DirFdResolver,
    pub execve_fd: u16,
}

/// Relies on nix::fcntl::open with O_TMPFILE on /tmp: a fresh anonymous,
/// unlinked file open for reading and writing, its descriptor nonnegative.
#[verifier::external_body]
pub(crate) fn anon_exec_file() -> (r: Result<i32, i32>)
    ensures
        r matches Ok(fd) ==> fd >= 0,
{
    match nix::fcntl::open(
        "/tmp",
        nix::fcntl::OFlag::O_TMPFILE | nix::fcntl::OFlag::O_RDWR,
        nix::sys::stat::Mode::from_bits_truncate(0o700),
    ) {
        Ok(fd) => Ok(fd),
        Err(e) => Err(e as i32),
    }
}

/// Relies on nix::unistd::close: gives a descriptor back to the OS.
#[verifier::external_body]
pub(crate) fn close_raw(fd: i32) {
    let _ = nix::unistd::close(fd);
}

impl<S> State<S> {
    /// Internal consistency of everything the supervisor owns.
    pub open spec fn wf(&self) -> bool {
        &&& self.mounts.wf()
        &&& self.fd_allocator.wf()
        &&& is_abs(self.cwd@)
        &&& self.cwd@.len() <= PATH_CAP
    }

    /// Build the supervisor state around a constructed mount registry and
    /// the initial working directory. Reserves the anonymous staging file;
    /// failure to get one is resource exhaustion.
    pub fn new(mounts: Mounts<S>, cwd: Vec<u8>) -> (r: Result<State<S>, i32>)
        requires
            mounts.wf(),
            is_abs(cwd@),
            cwd@.len() <= PATH_CAP,
        ensures
            match r {
                Ok(s) => {
                    &&& s.wf()
                    &&& s.mounts == mounts
                    &&& s.cwd == cwd
                    &&& s.fd_allocator.table() == Map::<u16, crate::fd_allocator::FdDescModel>::empty()
                },
                Err(e) => true,
            },
    {
        let fd = match anon_exec_file() {
            Ok(fd) => fd,
            Err(e) => {
                return Err(e);
            },
        };
        if fd > 65535 {
            return Err(EMFILE as i32);
        }
        Ok(State {
            mounts,
            fd_allocator: FdAllocator::new(),
            cwd,
            dirfd_resolver: DirFdResolver::new(),
            execve_fd: fd as u16,
        })
    }
}

} // verus!
