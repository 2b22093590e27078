//! The supervisor loop: wait for the traced process's syscall-entry stops,
//! hand each to the router, and stop when the traced process is gone. On
//! every way out the virtual handle table is torn down, so every reserved
//! descriptor slot is given back.

use vstd::prelude::*;
use crate::errno::EIO;
use crate::fd_allocator::FdDescModel;
use crate::ptrace::{getregs, wait_event, wait_syscall, WaitEvent};
use crate::router::{route, RouteOutcome};
use crate::sockets::Socket;
use crate::state::State;

verus! {

/// Run the trace loop to completion: `Ok` carries the traced process's exit
/// status; an abnormal end or an unrecoverable trace-control failure is an
/// error. Either way the handle table ends empty and the tracked working
/// directory is as it started.
pub fn run<S: Socket>(state: &mut State<S>, pid: i32) -> (r: Result<i32, i32>)
    requires
        old(state).wf(),
    ensures
        final(state).wf(),
        final(state).cwd == old(state).cwd,
        final(state).fd_allocator.table() == Map::<u16, FdDescModel>::empty(),
{
    // the traced child stops on its own once it has armed tracing
    match wait_event() {
        Ok(WaitEvent::Stopped) => {},
        Ok(WaitEvent::Exited(c)) => {
            state.fd_allocator.release_all();
            return Ok(c);
        },
        Ok(WaitEvent::Signaled(s)) => {
            state.fd_allocator.release_all();
            return Err(s);
        },
        Err(e) => {
            state.fd_allocator.release_all();
            return Err(e);
        },
    }
    let mut fuel: u64 = u64::MAX;
    loop
        invariant
            state.wf(),
            state.cwd == old(state).cwd,
        decreases fuel,
    {
        if fuel == 0 {
            state.fd_allocator.release_all();
            return Err(EIO as i32);
        }
        fuel = fuel - 1;
        // resume to the next syscall-entry stop
        match wait_syscall(pid) {
            Ok(WaitEvent::Stopped) => {},
            Ok(WaitEvent::Exited(c)) => {
                state.fd_allocator.release_all();
                return Ok(c);
            },
            Ok(WaitEvent::Signaled(s)) => {
                state.fd_allocator.release_all();
                return Err(s);
            },
            Err(e) => {
                state.fd_allocator.release_all();
                return Err(e);
            },
        }
        let regs = match getregs(pid) {
            Ok(regs) => regs,
            Err(e) => {
                state.fd_allocator.release_all();
                return Err(e);
            },
        };
        match route(state, &regs, pid) {
            Ok(RouteOutcome::Continue) => {},
            Ok(RouteOutcome::Exited(c)) => {
                state.fd_allocator.release_all();
                return Ok(c);
            },
            Ok(RouteOutcome::Signaled(s)) => {
                state.fd_allocator.release_all();
                return Err(s);
            },
            Err(e) => {
                state.fd_allocator.release_all();
                return Err(e);
            },
        }
    }
}

} // verus!
