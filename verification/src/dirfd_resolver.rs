//! Resolution of a syscall's base-directory handle: the "at" family of
//! syscalls names paths relative to a directory handle, which has to become
//! an absolute path before mount matching.

use vstd::prelude::*;
use crate::path::{copy_bytes, is_abs, join, join_spec};

verus! {

/// The base-directory handle value that means "the current directory".
pub const AT_FDCWD: i32 = -100;

/// Turns a raw path plus a base-directory handle into a path ready to be
/// joined with the tracked working directory.
pub struct DirFdResolver {}

/// Relies on nix::fcntl::readlink of /proc/<pid>/fd/<fd>: the absolute path
/// the OS records for that process's open directory handle. What comes back
/// depends on the live process, so nothing is promised of its content.
#[verifier::external_body]
fn readlink_fd(pid: i32, dirfd: i32) -> (r: Result<Vec<u8>, i32>)
{
    match nix::fcntl::readlink(format!("/proc/{}/fd/{}", pid, dirfd).as_str()) {
        Ok(p) => Ok(p.into_encoded_bytes()),
        Err(e) => Err(e as i32),
    }
}

impl DirFdResolver {
    pub fn new() -> DirFdResolver {
        DirFdResolver {  }
    }

    /// Resolve a raw path against its base-directory handle. An absolute
    /// path stands on its own, and a path relative to the current directory
    /// comes back unchanged, for the caller to join with the tracked working
    /// directory. Any other handle is followed through the traced process's
    /// own handle table; failure there is an error, never a silent fallback.
    pub fn resolve(&self, pid: i32, dirfd: i32, path: &Vec<u8>) -> (r: Result<Vec<u8>, i32>)
        ensures
            match r {
                Ok(v) => {
                    &&& (is_abs(path@) || dirfd == AT_FDCWD) ==> v@ == path@
                    &&& v@.len() <= path@.len()
                        || exists|base: Seq<u8>| v@ == join_spec(base, path@)
                },
                Err(e) => !is_abs(path@) && dirfd != AT_FDCWD,
            },
    {
        if path.len() > 0 && path[0] == crate::path::SEP {
            Ok(copy_bytes(path))
        } else if dirfd == AT_FDCWD {
            Ok(copy_bytes(path))
        } else {
            match readlink_fd(pid, dirfd) {
                Ok(base) => {
                    let v = join(&base, path);
                    proof {
                        assert(v@ == join_spec(base@, path@));
                    }
                    Ok(v)
                },
                Err(e) => Err(e),
            }
        }
    }
}

} // verus!
