use mountbox::mounts::Mounts;
use mountbox::ptrace::Regs;
use mountbox::router::route;
use mountbox::sockets::Socket;
use mountbox::state::State;

/// A backend that must never be spoken to.
struct DeadSocket {}

impl Socket for DeadSocket {
    fn write(&mut self, _data: &[u8]) {
        panic!("an unintercepted syscall reached a backend");
    }

    fn read(&mut self) -> Vec<u8> {
        panic!("an unintercepted syscall reached a backend");
    }
}

fn raw_regs() -> nix::libc::user_regs_struct {
    nix::libc::user_regs_struct {
        r15: 150,
        r14: 140,
        r13: 130,
        r12: 120,
        rbp: 60,
        rbx: 61,
        r11: 110,
        r10: 73,
        r9: 75,
        r8: 74,
        rax: 77,
        rcx: 62,
        rdx: 72,
        rsi: 71,
        rdi: 70,
        orig_rax: 42,
        rip: 63,
        cs: 64,
        eflags: 65,
        rsp: 66,
        ss: 67,
        fs_base: 68,
        gs_base: 69,
        ds: 80,
        es: 81,
        fs: 82,
        gs: 83,
    }
}

#[test]
fn register_roles_are_extracted_by_position() {
    // orig_rax is the syscall number; rdi, rsi, rdx, r10, r8, r9 are its
    // arguments; rax is the return value
    let regs = Regs::from_raw(raw_regs());
    assert_eq!(regs.syscall_nr, 42);
    assert_eq!(regs.arg0, 70);
    assert_eq!(regs.arg1, 71);
    assert_eq!(regs.arg2, 72);
    assert_eq!(regs.arg3, 73);
    assert_eq!(regs.arg4, 74);
    assert_eq!(regs.arg5, 75);
    assert_eq!(regs.ret, 77);
}

#[test]
fn register_moves_touch_only_their_role() {
    let regs = Regs::from_raw(raw_regs());

    let entry = regs.with_syscall_nr(u64::MAX);
    assert_eq!(entry.syscall_nr, u64::MAX);
    assert_eq!(entry.arg0, regs.arg0);
    assert_eq!(entry.ret, regs.ret);

    let exit = regs.with_ret(1234);
    assert_eq!(exit.ret, 1234);
    assert_eq!(exit.syscall_nr, regs.syscall_nr);
    assert_eq!(exit.arg0, regs.arg0);

    let call = regs.with_call(322, 9, 8, 7, 6, 5);
    assert_eq!(call.syscall_nr, 322);
    assert_eq!(call.arg0, 9);
    assert_eq!(call.arg1, 8);
    assert_eq!(call.arg2, 7);
    assert_eq!(call.arg3, 6);
    assert_eq!(call.arg4, 5);
    assert_eq!(call.arg5, regs.arg5);
    assert_eq!(call.ret, regs.ret);
    // the carried machine file is untouched
    assert_eq!(call.raw.r15, 150);
    assert_eq!(call.raw.rip, 63);
}

#[test]
fn unintercepted_syscalls_touch_no_state_and_no_backend() {
    let mounts = Mounts::new(vec![(b"/data".to_vec(), DeadSocket {})]).unwrap();
    let mut state = State::new(mounts, b"/".to_vec()).unwrap();

    // a syscall number outside the intercepted set
    let mut raw = raw_regs();
    raw.orig_rax = 999;
    let regs = Regs::from_raw(raw);

    // no traced process stands behind this pid, so the pass-through resume
    // fails; what matters is that no backend was spoken to (the dead socket
    // would panic) and the state is untouched
    let r = route(&mut state, &regs, -1);
    assert!(r.is_err());
    assert!(state.fd_allocator.get_desc_for_fd(3).is_none());
    assert_eq!(state.cwd, b"/".to_vec());
}
