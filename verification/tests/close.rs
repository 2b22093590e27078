use std::collections::VecDeque;

use mountbox::fd_allocator::FdAllocator;
use mountbox::mounts::Mounts;
use mountbox::sockets::{mount_round_trip, Socket};
use mountbox::state::State;
use mountbox::syscalls::close;
use mountbox::wire::{encode_frame, encode_response, parse_request, Request, Response};

struct MockSocket {
    expected: VecDeque<Request>,
    replies: VecDeque<Vec<u8>>,
}

impl MockSocket {
    fn new(expected: Vec<Request>, replies: Vec<Response>) -> MockSocket {
        MockSocket {
            expected: expected.into_iter().collect(),
            replies: replies
                .iter()
                .map(|r| encode_frame(&encode_response(r)))
                .collect(),
        }
    }
}

impl Socket for MockSocket {
    fn write(&mut self, data: &[u8]) {
        let framed = data.to_vec();
        let len = u32::from_be_bytes([framed[0], framed[1], framed[2], framed[3]]) as usize;
        assert_eq!(framed.len(), 4 + len, "bad frame");
        let payload = framed[4..].to_vec();
        let req = parse_request(&payload).expect("malformed request");
        let want = self.expected.pop_front().expect("unexpected request");
        assert_eq!(req, want);
    }

    fn read(&mut self) -> Vec<u8> {
        self.replies.pop_front().expect("unexpected read")
    }
}

#[test]
fn close_should_close_fd() {
    let socket = MockSocket::new(
        vec![Request::Close { id: b"test_id".to_vec() }],
        vec![Response::Empty],
    );
    let mounts = Mounts::new(vec![(b"/test".to_vec(), socket)]).unwrap();
    let mut state = State::new(mounts, b"/".to_vec()).unwrap();

    let mut fd_allocator = FdAllocator::new();
    fd_allocator.set_current_mountpoint(&b"/test".to_vec());
    let fd = fd_allocator.allocate_fd(&b"test_id".to_vec()).unwrap();
    state.fd_allocator = fd_allocator;

    let desc_id = state
        .fd_allocator
        .get_desc_for_fd(fd)
        .expect("fd not stored")
        .id
        .clone();
    let req = close::serialize_call(&desc_id);
    let resp = mount_round_trip(&mut state.mounts, &b"/test".to_vec(), &req).unwrap();
    let res = close::deserialize_ret(&mut state.fd_allocator, fd, &resp);

    assert_eq!(res, 0);
    assert!(
        state.fd_allocator.get_desc_for_fd(fd).is_none(),
        "fd still stored in fdallocator"
    );
    assert_eq!(
        nix::fcntl::fcntl(fd.into(), nix::fcntl::FcntlArg::F_GETFL),
        Err(nix::errno::Errno::EBADF),
        "fd not closed"
    );
}

#[test]
fn close_error_keeps_fd() {
    let socket = MockSocket::new(
        vec![Request::Close { id: b"keep".to_vec() }],
        vec![Response::Error { code: 5 }],
    );
    let mounts = Mounts::new(vec![(b"/test".to_vec(), socket)]).unwrap();
    let mut state = State::new(mounts, b"/".to_vec()).unwrap();
    state.fd_allocator.set_current_mountpoint(&b"/test".to_vec());
    let fd = state.fd_allocator.allocate_fd(&b"keep".to_vec()).unwrap();

    let req = close::serialize_call(&b"keep".to_vec());
    let resp = mount_round_trip(&mut state.mounts, &b"/test".to_vec(), &req).unwrap();
    let res = close::deserialize_ret(&mut state.fd_allocator, fd, &resp);

    // the backend error comes back verbatim, negated
    assert_eq!(res, 5u64.wrapping_neg());
    assert!(state.fd_allocator.get_desc_for_fd(fd).is_some());
    state.fd_allocator.release_all();
}

#[test]
fn close_wrong_payload_is_permission_denied() {
    let socket = MockSocket::new(
        vec![Request::Close { id: b"x".to_vec() }],
        vec![Response::Fd { id: b"x".to_vec() }],
    );
    let mounts = Mounts::new(vec![(b"/test".to_vec(), socket)]).unwrap();
    let mut state = State::new(mounts, b"/".to_vec()).unwrap();
    state.fd_allocator.set_current_mountpoint(&b"/test".to_vec());
    let fd = state.fd_allocator.allocate_fd(&b"x".to_vec()).unwrap();

    let req = close::serialize_call(&b"x".to_vec());
    let resp = mount_round_trip(&mut state.mounts, &b"/test".to_vec(), &req).unwrap();
    let res = close::deserialize_ret(&mut state.fd_allocator, fd, &resp);

    // a response of the wrong shape is a protocol error: permission denied
    assert_eq!(res, 13u64.wrapping_neg());
    assert!(state.fd_allocator.get_desc_for_fd(fd).is_some());
    state.fd_allocator.release_all();
}
