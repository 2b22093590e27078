//! The process-memory bridge and register forgery: word-by-word access to
//! the traced process's memory and the register moves that make a forged
//! syscall result look real.

use vstd::prelude::*;
use std::io::IoSlice;
use nix::libc::user_regs_struct;
use crate::errno::{EIO, ESRCH};
use crate::wire::subvec;

verus! {

/// The machine's own layout of the traced process's saved register file.
/// Opaque here: read and written only at the two trusted boundaries below.
#[verifier::external_type_specification]
#[verifier::external_body]
pub struct ExUserRegs(user_regs_struct);

/// The traced process's saved register file at a stop, keyed by logical
/// role: the syscall number, its six arguments and the return value stand
/// as plain fields that contracts can speak of, while the machine-specific
/// remainder rides along opaquely and goes back to the kernel untouched.
#[derive(Clone, Copy)]
pub struct Regs {
    pub syscall_nr: u64,
    pub arg0: u64,
    pub arg1: u64,
    pub arg2: u64,
    pub arg3: u64,
    pub arg4: u64,
    pub arg5: u64,
    pub ret: u64,
    /// The machine register file as read, carried so the registers outside
    /// the logical roles go back exactly as they came.
    pub raw: user_regs_struct,
}

impl Regs {
    /// Relies on the x86_64 register roles libc documents for
    /// user_regs_struct: orig_rax holds the syscall number, rdi, rsi, rdx,
    /// r10, r8 and r9 its arguments, rax the return value.
    #[verifier::external_body]
    pub fn from_raw(raw: user_regs_struct) -> Regs {
        Regs {
            syscall_nr: raw.orig_rax,
            arg0: raw.rdi,
            arg1: raw.rsi,
            arg2: raw.rdx,
            arg3: raw.r10,
            arg4: raw.r8,
            arg5: raw.r9,
            ret: raw.rax,
            raw,
        }
    }

    /// The same register file with only the syscall number replaced.
    pub fn with_syscall_nr(&self, nr: u64) -> (r: Regs)
        ensures
            r.syscall_nr == nr,
            r.arg0 == self.arg0,
            r.arg1 == self.arg1,
            r.arg2 == self.arg2,
            r.arg3 == self.arg3,
            r.arg4 == self.arg4,
            r.arg5 == self.arg5,
            r.ret == self.ret,
            r.raw == self.raw,
    {
        Regs { syscall_nr: nr, ..*self }
    }

    /// The same register file with only the return value replaced.
    pub fn with_ret(&self, ret: u64) -> (r: Regs)
        ensures
            r.syscall_nr == self.syscall_nr,
            r.arg0 == self.arg0,
            r.arg1 == self.arg1,
            r.arg2 == self.arg2,
            r.arg3 == self.arg3,
            r.arg4 == self.arg4,
            r.arg5 == self.arg5,
            r.ret == ret,
            r.raw == self.raw,
    {
        Regs { ret, ..*self }
    }

    /// The same register file with the syscall number and its first five
    /// arguments replaced, for rewriting a pending syscall.
    pub fn with_call(&self, nr: u64, a0: u64, a1: u64, a2: u64, a3: u64, a4: u64) -> (r: Regs)
        ensures
            r.syscall_nr == nr,
            r.arg0 == a0,
            r.arg1 == a1,
            r.arg2 == a2,
            r.arg3 == a3,
            r.arg4 == a4,
            r.arg5 == self.arg5,
            r.ret == self.ret,
            r.raw == self.raw,
    {
        Regs { syscall_nr: nr, arg0: a0, arg1: a1, arg2: a2, arg3: a3, arg4: a4, ..*self }
    }
}

/// What waiting on the traced process reported.
pub enum WaitEvent {
    /// Stopped at a trace event; registers can be read.
    Stopped,
    /// Exited with this status.
    Exited(i32),
    /// Killed by this signal.
    Signaled(i32),
}

/// How many bytes a path read out of traced memory may hold.
pub const PATH_CAP: usize = 4096;

/// Relies on nix::sys::ptrace::traceme: marks the calling process as traced
/// by its parent.
#[verifier::external_body]
pub fn traceme() -> (r: Result<(), i32>)
{
    match nix::sys::ptrace::traceme() {
        Ok(()) => Ok(()),
        Err(e) => Err(e as i32),
    }
}

/// Relies on nix::sys::ptrace::syscall: resumes the traced process until its
/// next syscall entry or exit stop.
#[verifier::external_body]
fn pt_syscall_step(pid: i32) -> (r: Result<(), i32>)
{
    match nix::sys::ptrace::syscall(nix::unistd::Pid::from_raw(pid), None) {
        Ok(()) => Ok(()),
        Err(e) => Err(e as i32),
    }
}

/// Relies on nix::sys::wait::wait: blocks until the traced process stops,
/// exits or is killed; a wait error is loss of the traced process.
#[verifier::external_body]
pub(crate) fn wait_event() -> (r: Result<WaitEvent, i32>)
{
    match nix::sys::wait::wait() {
        Ok(nix::sys::wait::WaitStatus::Exited(_, code)) => Ok(WaitEvent::Exited(code)),
        Ok(nix::sys::wait::WaitStatus::Signaled(_, sig, _)) => Ok(WaitEvent::Signaled(sig as i32)),
        Ok(_) => Ok(WaitEvent::Stopped),
        Err(e) => Err(e as i32),
    }
}

/// Relies on nix::sys::ptrace::getregs and the x86_64 register roles: reads
/// the traced process's saved register file at a stop, keyed by role.
#[verifier::external_body]
pub fn getregs(pid: i32) -> (r: Result<Regs, i32>)
{
    match nix::sys::ptrace::getregs(nix::unistd::Pid::from_raw(pid)) {
        Ok(raw) => Ok(Regs::from_raw(raw)),
        Err(e) => Err(e as i32),
    }
}

/// Relies on nix::sys::ptrace::setregs and the x86_64 register roles: plants
/// each logical field in its machine register (the syscall number in
/// orig_rax, the arguments in rdi, rsi, rdx, r10, r8, r9, the return value
/// in rax), leaves the rest of the file as carried, and writes it back
/// before the traced process resumes.
#[verifier::external_body]
pub(crate) fn set_regs(pid: i32, regs: &Regs) -> (r: Result<(), i32>)
{
    let mut raw = regs.raw;
    raw.orig_rax = regs.syscall_nr;
    raw.rdi = regs.arg0;
    raw.rsi = regs.arg1;
    raw.rdx = regs.arg2;
    raw.r10 = regs.arg3;
    raw.r8 = regs.arg4;
    raw.r9 = regs.arg5;
    raw.rax = regs.ret;
    match nix::sys::ptrace::setregs(nix::unistd::Pid::from_raw(pid), raw) {
        Ok(()) => Ok(()),
        Err(e) => Err(e as i32),
    }
}

/// Relies on nix::sys::ptrace::read: one word of the traced process's memory
/// at this address, whatever that memory holds.
#[verifier::external_body]
fn pt_peek(pid: i32, addr: u64) -> (r: Result<u64, i32>)
{
    match nix::sys::ptrace::read(nix::unistd::Pid::from_raw(pid), (addr as usize) as _) {
        Ok(word) => Ok(word as u64),
        Err(e) => Err(e as i32),
    }
}

/// Relies on nix::sys::uio::process_vm_writev: writes the chunk into the
/// traced process's memory at this address and reports how many bytes went
/// through, never more than were handed in.
#[verifier::external_body]
fn poke_chunk(pid: i32, addr: u64, chunk: &Vec<u8>) -> (r: Result<usize, i32>)
    ensures
        r matches Ok(n) ==> n <= chunk@.len(),
{
    let local = [IoSlice::new(chunk.as_slice())];
    let remote = [nix::sys::uio::RemoteIoVec { base: addr as usize, len: chunk.len() }];
    match nix::sys::uio::process_vm_writev(nix::unistd::Pid::from_raw(pid), &local, &remote) {
        Ok(n) => Ok(n),
        Err(e) => Err(e as i32),
    }
}

/// Resume the traced process to its next stop and report what the stop was.
pub fn wait_syscall(pid: i32) -> (r: Result<WaitEvent, i32>)
{
    match pt_syscall_step(pid) {
        Ok(()) => wait_event(),
        Err(e) => Err(e),
    }
}

/// The bytes of one memory word, in the traced process's native order.
pub open spec fn word_bytes(w: u64) -> Seq<u8> {
    seq![
        (w & 0xFF) as u8,
        ((w >> 8) & 0xFF) as u8,
        ((w >> 16) & 0xFF) as u8,
        ((w >> 24) & 0xFF) as u8,
        ((w >> 32) & 0xFF) as u8,
        ((w >> 40) & 0xFF) as u8,
        ((w >> 48) & 0xFF) as u8,
        ((w >> 56) & 0xFF) as u8,
    ]
}

fn word_to_bytes(w: u64) -> (r: Vec<u8>)
    ensures
        r@ == word_bytes(w),
{
    let mut out: Vec<u8> = Vec::new();
    out.push((w & 0xFF) as u8);
    out.push(((w >> 8) & 0xFF) as u8);
    out.push(((w >> 16) & 0xFF) as u8);
    out.push(((w >> 24) & 0xFF) as u8);
    out.push(((w >> 32) & 0xFF) as u8);
    out.push(((w >> 40) & 0xFF) as u8);
    out.push(((w >> 48) & 0xFF) as u8);
    out.push(((w >> 56) & 0xFF) as u8);
    proof {
        assert(out@ =~= word_bytes(w));
    }
    out
}

/// Read a null-terminated byte string out of the traced process's memory,
/// word by word, until a zero byte appears in a word. The zero byte is not
/// part of the result; failure to read a word before one was seen is an
/// error, not an empty string. Strings longer than `PATH_CAP` are refused.
pub fn read_str(pid: i32, addr: u64) -> (r: Result<Vec<u8>, i32>)
    ensures
        match r {
            Ok(v) => v@.len() <= PATH_CAP + 8 && forall|i: int| 0 <= i < v@.len() ==> v@[i] != 0,
            Err(e) => true,
        },
        addr > u64::MAX - (PATH_CAP as u64) - 8 ==> r is Err,
{
    if addr > u64::MAX - (PATH_CAP as u64) - 8 {
        return Err(EIO as i32);
    }
    let mut data: Vec<u8> = Vec::new();
    loop
        invariant
            addr <= u64::MAX - (PATH_CAP as u64) - 8,
            data@.len() <= PATH_CAP + 8,
            forall|i: int| 0 <= i < data@.len() ==> data@[i] != 0,
        decreases PATH_CAP + 8 - data@.len(),
    {
        if data.len() > PATH_CAP {
            return Err(EIO as i32);
        }
        let word = match pt_peek(pid, addr + data.len() as u64) {
            Ok(w) => w,
            Err(e) => {
                return Err(e);
            },
        };
        let bytes = word_to_bytes(word);
        let ghost len0 = data@.len();
        let mut j: usize = 0;
        while j < 8
            invariant
                addr <= u64::MAX - (PATH_CAP as u64) - 8,
                bytes@.len() == 8,
                j <= 8,
                len0 <= PATH_CAP,
                data@.len() == len0 + j,
                forall|i: int| 0 <= i < data@.len() ==> data@[i] != 0,
            decreases 8 - j,
        {
            let b = bytes[j];
            if b == 0 {
                return Ok(data);
            }
            data.push(b);
            j = j + 1;
        }
    }
}

/// The image that lands in the traced process's buffer when `src` is written
/// with capacity `len`: the source's bytes, zero-filled up to the capacity.
pub open spec fn written_image(src: Seq<u8>, len: int) -> Seq<u8> {
    Seq::new(len as nat, |j: int| if j < src.len() { src[j] } else { 0u8 })
}

/// Lay out the bytes a buffer write will carry: the source truncated or
/// zero-padded to exactly the destination capacity.
pub fn fill_image(src: &Vec<u8>, len: usize) -> (r: Vec<u8>)
    ensures
        r@ == written_image(src@, len as int),
{
    let mut out: Vec<u8> = Vec::new();
    let n = src.len();
    let mut j: usize = 0;
    while j < len
        invariant
            n == src@.len(),
            j <= len,
            out@.len() == j,
            forall|i: int| 0 <= i < j ==> out@[i] == written_image(src@, len as int)[i],
        decreases len - j,
    {
        if j < n {
            out.push(src[j]);
        } else {
            out.push(0);
        }
        j = j + 1;
    }
    proof {
        assert(out@ =~= written_image(src@, len as int));
    }
    out
}

/// Write `bytes` into the traced process's memory at `addr`, chunk by chunk
/// of at most word size; the final partial chunk is cut to the capacity and
/// the source is zero-padded, so exactly `len` bytes are written, never more.
pub fn write_bytes(pid: i32, addr: u64, bytes: &Vec<u8>, len: usize) -> (r: Result<(), i32>)
    ensures
        len == 0 ==> r is Ok,
        len as u64 > u64::MAX - addr ==> r is Err,
{
    if len as u64 > u64::MAX - addr {
        return Err(EIO as i32);
    }
    let image = fill_image(bytes, len);
    let mut pos: usize = 0;
    while pos < len
        invariant
            image@.len() == len,
            pos <= len,
            len as u64 <= u64::MAX - addr,
        decreases len - pos,
    {
        let chunk_len: usize = if len - pos < 8 {
            len - pos
        } else {
            8
        };
        let chunk = subvec(&image, pos, pos + chunk_len);
        match poke_chunk(pid, addr + pos as u64, &chunk) {
            Ok(n) => {
                if n != chunk_len {
                    return Err(EIO as i32);
                }
            },
            Err(e) => {
                return Err(e);
            },
        }
        pos = pos + chunk_len;
    }
    Ok(())
}

/// Forge a syscall's outcome: turn the pending syscall into one the kernel
/// will refuse harmlessly, let the entry/exit pair complete, then plant the
/// computed return value in the return register. The register files written
/// back are fixed exactly by `with_syscall_nr` and `with_ret`: at the entry
/// stop the caller's registers with only the syscall number made unusable,
/// at the exit stop the then-current registers with only the return value
/// replaced. The traced process only ever sees the planted value.
pub fn fake_syscall(pid: i32, regs: &Regs, ret: u64) -> (r: Result<(), i32>)
{
    match set_regs(pid, &regs.with_syscall_nr(u64::MAX)) {
        Ok(()) => {},
        Err(e) => {
            return Err(e);
        },
    }
    match wait_syscall(pid) {
        Ok(WaitEvent::Stopped) => {},
        Ok(_) => {
            return Err(ESRCH as i32);
        },
        Err(e) => {
            return Err(e);
        },
    }
    let cur = match getregs(pid) {
        Ok(cur) => cur,
        Err(e) => {
            return Err(e);
        },
    };
    set_regs(pid, &cur.with_ret(ret))
}

} // verus!
