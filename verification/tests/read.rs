use std::collections::VecDeque;

use mountbox::fd_allocator::FdAllocator;
use mountbox::mounts::Mounts;
use mountbox::sockets::{mount_round_trip, Socket};
use mountbox::state::State;
use mountbox::syscalls::read;
use mountbox::wire::{encode_frame, encode_response, parse_request, Request, Response};

struct MockSocket {
    expected: VecDeque<Request>,
    replies: VecDeque<Vec<u8>>,
}

impl MockSocket {
    fn new(expected: Vec<Request>, replies: Vec<Response>) -> MockSocket {
        MockSocket {
            expected: expected.into_iter().collect(),
            replies: replies
                .iter()
                .map(|r| encode_frame(&encode_response(r)))
                .collect(),
        }
    }
}

impl Socket for MockSocket {
    fn write(&mut self, data: &[u8]) {
        let framed = data.to_vec();
        let len = u32::from_be_bytes([framed[0], framed[1], framed[2], framed[3]]) as usize;
        assert_eq!(framed.len(), 4 + len, "bad frame");
        let payload = framed[4..].to_vec();
        let req = parse_request(&payload).expect("malformed request");
        let want = self.expected.pop_front().expect("unexpected request");
        assert_eq!(req, want);
    }

    fn read(&mut self) -> Vec<u8> {
        self.replies.pop_front().expect("unexpected read")
    }
}

#[test]
fn read_returns_data() {
    let socket = MockSocket::new(
        vec![Request::Read { id: b"test_id".to_vec(), len: 4 }],
        vec![Response::Data { data: vec![0u8, 1, 2, 3] }],
    );
    let mounts = Mounts::new(vec![(b"/test".to_vec(), socket)]).unwrap();
    let mut state = State::new(mounts, b"/".to_vec()).unwrap();

    let mut fd_allocator = FdAllocator::new();
    fd_allocator.set_current_mountpoint(&b"/test".to_vec());
    let fd = fd_allocator.allocate_fd(&b"test_id".to_vec()).unwrap();
    state.fd_allocator = fd_allocator;

    let id = state.fd_allocator.get_desc_for_fd(fd).unwrap().id.clone();
    let req = read::serialize_req(&id, 4);
    let resp = mount_round_trip(&mut state.mounts, &b"/test".to_vec(), &req).unwrap();
    let (buf, res) = read::deserialize_res(&resp, 4);

    assert_eq!(res, 4);
    assert_eq!(buf, vec![0u8, 1, 2, 3]);
    state.fd_allocator.release_all();
}

#[test]
fn read_truncates_to_buffer_capacity() {
    // the backend answers with more than the 4-byte buffer holds
    let resp = encode_response(&Response::Data { data: vec![9u8, 8, 7, 6, 5, 4] });
    let (buf, res) = read::deserialize_res(&resp, 4);
    assert_eq!(res, 4);
    assert_eq!(buf, vec![9u8, 8, 7, 6]);
}

#[test]
fn read_shorter_answer_reports_actual_length() {
    let resp = encode_response(&Response::Data { data: vec![1u8, 2] });
    let (buf, res) = read::deserialize_res(&resp, 4);
    assert_eq!(res, 2);
    assert_eq!(buf, vec![1u8, 2]);
}

#[test]
fn read_zero_length_answer_is_end_of_data() {
    let resp = encode_response(&Response::Data { data: vec![] });
    let (buf, res) = read::deserialize_res(&resp, 4);
    assert_eq!(res, 0);
    assert!(buf.is_empty());
}

#[test]
fn read_backend_error_is_negated_verbatim() {
    let resp = encode_response(&Response::Error { code: 9 });
    let (buf, res) = read::deserialize_res(&resp, 4);
    assert!(buf.is_empty());
    assert_eq!(res, 9u64.wrapping_neg());
}
