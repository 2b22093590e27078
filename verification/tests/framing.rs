use std::collections::VecDeque;

use mountbox::mounts::Mounts;
use mountbox::syscalls::close;
use mountbox::syscalls::open;
use mountbox::syscalls::read;
use mountbox::sockets::{mount_round_trip, Socket};
use mountbox::wire::{encode_frame, encode_response, parse_request, Request, Response};

/// A transport that hands the reply back in pieces of its own choosing, the
/// way a stream socket may.
struct ChunkySocket {
    chunks: VecDeque<Vec<u8>>,
}

impl Socket for ChunkySocket {
    fn write(&mut self, _data: &[u8]) {}

    fn read(&mut self) -> Vec<u8> {
        self.chunks.pop_front().unwrap_or_default()
    }
}

#[test]
fn frame_boundaries_come_from_the_length_prefix() {
    // the reply arrives split at awkward places: mid-header, then mid-payload
    let framed = encode_frame(&encode_response(&Response::Fd { id: b"abcdef".to_vec() }));
    let chunks: VecDeque<Vec<u8>> = vec![
        framed[0..2].to_vec(),
        framed[2..5].to_vec(),
        framed[5..].to_vec(),
    ]
    .into_iter()
    .collect();
    let mounts = Mounts::new(vec![(b"/m".to_vec(), ChunkySocket { chunks })]).unwrap();
    let mut mounts = mounts;
    let req = Request::Stat { path: b"/x".to_vec() };
    let payload = mount_round_trip(&mut mounts, &b"/m".to_vec(), &req).unwrap();
    assert_eq!(
        mountbox::wire::parse_response(&payload),
        Some(Response::Fd { id: b"abcdef".to_vec() })
    );
}

#[test]
fn a_closed_channel_tears_the_round_trip_down() {
    // the transport has nothing: the round trip fails rather than hang on a
    // half frame
    let mounts = Mounts::new(vec![(
        b"/m".to_vec(),
        ChunkySocket { chunks: VecDeque::new() },
    )])
    .unwrap();
    let mut mounts = mounts;
    let req = Request::Stat { path: b"/x".to_vec() };
    assert!(mount_round_trip(&mut mounts, &b"/m".to_vec(), &req).is_err());
}

#[test]
fn bytes_beyond_the_one_frame_are_refused() {
    let mut framed = encode_frame(&encode_response(&Response::Empty));
    framed.push(7);
    let chunks: VecDeque<Vec<u8>> = vec![framed].into_iter().collect();
    let mounts = Mounts::new(vec![(b"/m".to_vec(), ChunkySocket { chunks })]).unwrap();
    let mut mounts = mounts;
    let req = Request::Stat { path: b"/x".to_vec() };
    assert!(mount_round_trip(&mut mounts, &b"/m".to_vec(), &req).is_err());
}

/// A backend answering the staging sequence an exec of a remote file drives:
/// an open, reads until end-of-data, a close.
struct SeqSocket {
    expected: VecDeque<Request>,
    replies: VecDeque<Vec<u8>>,
}

impl Socket for SeqSocket {
    fn write(&mut self, data: &[u8]) {
        let framed = data.to_vec();
        let len = u32::from_be_bytes([framed[0], framed[1], framed[2], framed[3]]) as usize;
        assert_eq!(framed.len(), 4 + len, "bad frame");
        let payload = framed[4..].to_vec();
        let req = parse_request(&payload).expect("malformed request");
        let want = self.expected.pop_front().expect("unexpected request");
        assert_eq!(req, want);
    }

    fn read(&mut self) -> Vec<u8> {
        self.replies.pop_front().expect("unexpected read")
    }
}

#[test]
fn staging_fetch_sequence() {
    let script = b"#!/bin/sh\necho hello".to_vec();
    let socket = SeqSocket {
        expected: vec![
            Request::Open { path: b"/execve".to_vec() },
            Request::Read { id: b"fd_execve".to_vec(), len: 65536 },
            Request::Read { id: b"fd_execve".to_vec(), len: 65536 },
            Request::Close { id: b"fd_execve".to_vec() },
        ]
        .into_iter()
        .collect(),
        replies: vec![
            encode_frame(&encode_response(&Response::Fd { id: b"fd_execve".to_vec() })),
            encode_frame(&encode_response(&Response::Data { data: script.clone() })),
            encode_frame(&encode_response(&Response::Data { data: vec![] })),
            encode_frame(&encode_response(&Response::Empty)),
        ]
        .into_iter()
        .collect(),
    };
    let mounts = Mounts::new(vec![(b"/test".to_vec(), socket)]).unwrap();
    let mut state = mountbox::state::State::new(mounts, b"/".to_vec()).unwrap();
    let prefix = b"/test".to_vec();
    state.fd_allocator.set_current_mountpoint(&prefix);

    let resp = mount_round_trip(&mut state.mounts, &prefix, &open::serialize_req(&b"/execve".to_vec())).unwrap();
    let fd = open::deserialize_res(&mut state.fd_allocator, &resp) as u16;
    let id = state.fd_allocator.get_desc_for_fd(fd).unwrap().id.clone();

    let mut contents = Vec::new();
    loop {
        let resp =
            mount_round_trip(&mut state.mounts, &prefix, &read::serialize_req(&id, 65536)).unwrap();
        let (chunk, n) = read::deserialize_res(&resp, 65536);
        assert_eq!(n as usize, chunk.len());
        if chunk.is_empty() {
            break;
        }
        contents.extend_from_slice(&chunk);
    }
    assert_eq!(contents, script);

    let resp =
        mount_round_trip(&mut state.mounts, &prefix, &close::serialize_call(&id)).unwrap();
    assert_eq!(close::deserialize_ret(&mut state.fd_allocator, fd, &resp), 0);
    assert!(state.fd_allocator.get_desc_for_fd(fd).is_none());
}
