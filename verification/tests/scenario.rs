use std::collections::VecDeque;

use mountbox::mounts::Mounts;
use mountbox::path::{join, relativize};
use mountbox::sockets::{mount_round_trip, Socket};
use mountbox::state::State;
use mountbox::syscalls::{close, open};
use mountbox::wire::{encode_frame, encode_response, parse_request, Request, Response};

struct MockSocket {
    expected: VecDeque<Request>,
    replies: VecDeque<Vec<u8>>,
}

impl MockSocket {
    fn new(expected: Vec<Request>, replies: Vec<Response>) -> MockSocket {
        MockSocket {
            expected: expected.into_iter().collect(),
            replies: replies
                .iter()
                .map(|r| encode_frame(&encode_response(r)))
                .collect(),
        }
    }
}

impl Socket for MockSocket {
    fn write(&mut self, data: &[u8]) {
        let framed = data.to_vec();
        let len = u32::from_be_bytes([framed[0], framed[1], framed[2], framed[3]]) as usize;
        assert_eq!(framed.len(), 4 + len, "bad frame");
        let payload = framed[4..].to_vec();
        let req = parse_request(&payload).expect("malformed request");
        let want = self.expected.pop_front().expect("unexpected request");
        assert_eq!(req, want);
    }

    fn read(&mut self) -> Vec<u8> {
        self.replies.pop_front().expect("unexpected read")
    }
}

/// A backend that must never be spoken to.
struct DeadSocket {}

impl Socket for DeadSocket {
    fn write(&mut self, _data: &[u8]) {
        panic!("a path outside every mount was sent to a backend");
    }

    fn read(&mut self) -> Vec<u8> {
        panic!("a path outside every mount was read from a backend");
    }
}

#[test]
fn open_then_close_through_a_mounted_backend() {
    // mount /data; the traced process opens /data/file.txt: the backend
    // must see Open{path:"/file.txt"} and answers Fd{id:"abc"}; the close
    // must carry Close{fd:{id:"abc"}} and answers success
    let socket = MockSocket::new(
        vec![
            Request::Open { path: b"/file.txt".to_vec() },
            Request::Close { id: b"abc".to_vec() },
        ],
        vec![Response::Fd { id: b"abc".to_vec() }, Response::Empty],
    );
    let mounts = Mounts::new(vec![(b"/data".to_vec(), socket)]).unwrap();
    let mut state = State::new(mounts, b"/".to_vec()).unwrap();
    let cwd_before = state.cwd.clone();

    // the supervisor resolves the raw path against the working directory
    let full = join(&state.cwd, &b"/data/file.txt".to_vec());
    let prefix = {
        let m = state.mounts.get_mount_of_path(&full).expect("no mount matched");
        m.path.clone()
    };
    assert_eq!(prefix, b"/data".to_vec());
    let rel = relativize(&prefix, &full);
    assert_eq!(rel, b"/file.txt".to_vec());

    // open: the forged return is a small positive descriptor number
    state.fd_allocator.set_current_mountpoint(&prefix);
    let req = open::serialize_req(&rel);
    let resp = mount_round_trip(&mut state.mounts, &prefix, &req).unwrap();
    let open_ret = open::deserialize_res(&mut state.fd_allocator, &resp);
    assert!(open_ret > 0 && open_ret <= 65535, "open must forge a small positive fd");
    let fd = open_ret as u16;
    let desc = state.fd_allocator.get_desc_for_fd(fd).expect("handle missing");
    assert_eq!(desc.id, b"abc".to_vec());
    assert_eq!(desc.mountpoint, b"/data".to_vec());

    // close: the forged return is zero and the handle is gone
    let id = desc.id.clone();
    let req = close::serialize_call(&id);
    let resp = mount_round_trip(&mut state.mounts, &prefix, &req).unwrap();
    let close_ret = close::deserialize_ret(&mut state.fd_allocator, fd, &resp);
    assert_eq!(close_ret, 0);

    // the round trip leaves no virtual handle behind and the working
    // directory untouched
    assert!(state.fd_allocator.get_desc_for_fd(fd).is_none());
    assert_eq!(state.cwd, cwd_before);
}

#[test]
fn paths_outside_every_mount_reach_no_backend() {
    let mounts = Mounts::new(vec![
        (b"/data".to_vec(), DeadSocket {}),
        (b"/srv".to_vec(), DeadSocket {}),
    ])
    .unwrap();
    let state = State::new(mounts, b"/".to_vec()).unwrap();

    // nothing under a mount prefix: lookup finds nothing, and since the
    // backends panic on any use, finishing this test shows none was spoken to
    assert!(state.mounts.get_mount_of_path(&b"/etc/passwd".to_vec()).is_none());
    assert!(state.mounts.get_mount_of_path(&b"/datax".to_vec()).is_none());
    assert!(state.mounts.get_mount_of_path(&b"/sr".to_vec()).is_none());
    assert!(state.mounts.get_mount_of_path(&b"/".to_vec()).is_none());
}

#[test]
fn lookup_takes_the_first_prefix_in_sorted_order() {
    let mounts = Mounts::new(vec![
        (b"/data/sub".to_vec(), DeadSocket {}),
        (b"/data".to_vec(), DeadSocket {}),
    ])
    .unwrap();
    let m = mounts.get_mount_of_path(&b"/data/sub/x".to_vec()).unwrap();
    // "/data" sorts before "/data/sub" and both cover the path
    assert_eq!(m.path, b"/data".to_vec());
}

#[test]
fn registry_construction_rejects_bad_prefixes() {
    // two textually identical prefixes
    assert!(Mounts::new(vec![
        (b"/data".to_vec(), DeadSocket {}),
        (b"/data".to_vec(), DeadSocket {}),
    ])
    .is_none());
    // a relative prefix
    assert!(Mounts::new(vec![(b"data".to_vec(), DeadSocket {})]).is_none());
    // a trailing slash
    assert!(Mounts::new(vec![(b"/data/".to_vec(), DeadSocket {})]).is_none());
    // an empty prefix
    assert!(Mounts::new(vec![(b"".to_vec(), DeadSocket {})]).is_none());
    // the root alone is fine
    assert!(Mounts::new(vec![(b"/".to_vec(), DeadSocket {})]).is_some());
}

#[test]
fn open_resource_exhaustion_reports_emfile() {
    // the backend opens the file, but every local descriptor number is taken;
    // exhaust the soft limit by allocating until allocation fails
    let socket = MockSocket::new(vec![], vec![]);
    let mounts = Mounts::new(vec![(b"/data".to_vec(), socket)]).unwrap();
    let mut state = State::new(mounts, b"/".to_vec()).unwrap();
    state.fd_allocator.set_current_mountpoint(&b"/data".to_vec());

    let (soft, hard) = {
        let lim = nix::sys::resource::getrlimit(nix::sys::resource::Resource::RLIMIT_NOFILE)
            .unwrap();
        (lim.0, lim.1)
    };
    let _ = hard;
    let lowered = if soft > 64 { 64 } else { soft };
    nix::sys::resource::setrlimit(
        nix::sys::resource::Resource::RLIMIT_NOFILE,
        lowered,
        hard,
    )
    .unwrap();

    let mut held = Vec::new();
    loop {
        match state.fd_allocator.allocate_fd(&b"filler".to_vec()) {
            Ok(fd) => held.push(fd),
            Err(_) => break,
        }
        assert!(held.len() < 100000, "allocation never failed");
    }
    // now interpret a successful open response: the allocation must fail and
    // the forged result must be resource exhaustion
    let resp = encode_response(&Response::Fd { id: b"abc".to_vec() });
    let ret = open::deserialize_res(&mut state.fd_allocator, &resp);
    assert_eq!(ret, 24u64.wrapping_neg());

    state.fd_allocator.release_all();
    nix::sys::resource::setrlimit(nix::sys::resource::Resource::RLIMIT_NOFILE, soft, hard)
        .unwrap();
}

fn zero_regs() -> nix::libc::user_regs_struct {
    nix::libc::user_regs_struct {
        r15: 0,
        r14: 0,
        r13: 0,
        r12: 0,
        rbp: 0,
        rbx: 0,
        r11: 0,
        r10: 0,
        r9: 0,
        r8: 0,
        rax: 0,
        rcx: 0,
        rdx: 0,
        rsi: 0,
        rdi: 0,
        orig_rax: 0,
        rip: 0,
        cs: 0,
        eflags: 0,
        rsp: 0,
        ss: 0,
        fs_base: 0,
        gs_base: 0,
        ds: 0,
        es: 0,
        fs: 0,
        gs: 0,
    }
}

#[test]
fn routing_outside_mounts_touches_no_state_and_no_backend() {
    let mounts = Mounts::new(vec![(b"/data".to_vec(), DeadSocket {})]).unwrap();
    let mut state = State::new(mounts, b"/".to_vec()).unwrap();
    let regs = mountbox::ptrace::Regs::from_raw(zero_regs());

    // no traced process stands behind this pid, so the pass-through resume
    // fails; what matters is that no backend was spoken to (the dead socket
    // would panic) and the handle table is untouched
    let r = mountbox::router::route_open(&mut state, &regs, -1, &b"/outside/x".to_vec());
    assert!(r.is_err());
    assert!(state.fd_allocator.get_desc_for_fd(3).is_none());

    let r = mountbox::router::route_stat_path(
        &mut state,
        &regs,
        -1,
        &b"/datax/y".to_vec(),
        0,
        mountbox::router::StatShape::Stat,
    );
    assert!(r.is_err());
    assert!(state.mounts.get_mount_of_path(&b"/outside/x".to_vec()).is_none());
}
