//! One translator per intercepted operation kind: building the request that
//! goes to the backend and interpreting the response into a forged syscall
//! result.

pub mod close;
pub mod execve;
pub mod fstat;
pub mod getcwd;
pub mod lstat;
pub mod open;
pub mod openat;
pub mod read;
pub mod stat;
pub mod statbuf;
pub mod statx;
