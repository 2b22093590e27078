//! A user-space filesystem redirector: a supervisor traces one child process,
//! intercepts a fixed set of its file-related system calls, routes the paths
//! that fall under registered mount prefixes to remote backends over a framed
//! byte-stream protocol, and forges the syscall results so that the traced
//! process cannot tell the difference.

pub mod dirfd_resolver;
pub mod errno;
pub mod fd_allocator;
pub mod mounts;
pub mod path;
pub mod ptrace;
pub mod router;
pub mod server;
pub mod sockets;
pub mod state;
pub mod syscalls;
pub mod wire;

pub use path::multipath_parser;
