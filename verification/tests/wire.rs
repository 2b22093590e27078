use mountbox::wire::{
    encode_frame, encode_request, encode_response, frame_payload, parse_request, parse_response,
    FileKind, Request, Response,
};

#[test]
fn request_exact_bytes() {
    let out = encode_request(&Request::Open { path: b"/f".to_vec() });
    assert_eq!(out, vec![1u8, 0, 0, 0, 2, 47, 102]);
    let framed = encode_frame(&out);
    assert_eq!(framed, vec![0u8, 0, 0, 7, 1, 0, 0, 0, 2, 47, 102]);
}

#[test]
fn request_round_trips() {
    let cases = vec![
        Request::Open { path: b"/file.txt".to_vec() },
        Request::Close { id: b"abc".to_vec() },
        Request::Read { id: b"abc".to_vec(), len: 0xDEAD_BEEF_0042 },
        Request::Stat { path: b"/".to_vec() },
        Request::Fstat { id: b"".to_vec() },
    ];
    for m in cases {
        let bytes = encode_request(&m);
        let back = parse_request(&bytes).expect("round trip failed");
        assert_eq!(back, m);
    }
}

#[test]
fn response_round_trips() {
    let cases = vec![
        Response::Error { code: 13 },
        Response::Fd { id: b"handle-7".to_vec() },
        Response::Stat { kind: FileKind::Directory, size: 0 },
        Response::Stat { kind: FileKind::File, size: 24 },
        Response::Stat { kind: FileKind::Other, size: u64::MAX },
        Response::Data { data: vec![0, 1, 2, 3] },
        Response::Data { data: vec![] },
        Response::Empty,
    ];
    for m in cases {
        let bytes = encode_response(&m);
        let back = parse_response(&bytes).expect("round trip failed");
        assert_eq!(back, m);
    }
}

#[test]
fn malformed_payloads_are_refused() {
    // empty payload
    assert!(parse_request(&vec![]).is_none());
    assert!(parse_response(&vec![]).is_none());
    // unknown tag
    assert!(parse_request(&vec![99u8, 0, 0, 0, 0]).is_none());
    assert!(parse_response(&vec![99u8]).is_none());
    // truncated length field
    assert!(parse_request(&vec![1u8, 0, 0]).is_none());
    // field length does not match what follows
    assert!(parse_request(&vec![1u8, 0, 0, 0, 5, 47]).is_none());
    // trailing garbage after a complete message
    let mut ok = encode_response(&Response::Empty);
    ok.push(0);
    assert!(parse_response(&ok).is_none());
}

#[test]
fn frame_payload_accepts_exactly_one_frame() {
    let framed = encode_frame(&vec![9u8, 8, 7]);
    assert_eq!(frame_payload(&framed), Some(vec![9u8, 8, 7]));
    // a short header, a trailing byte, or a lying length field is no frame
    assert_eq!(frame_payload(&vec![0u8, 0, 0]), None);
    let mut extra = encode_frame(&vec![1u8]);
    extra.push(0);
    assert_eq!(frame_payload(&extra), None);
    assert_eq!(frame_payload(&vec![0u8, 0, 0, 2, 1]), None);
    // the empty payload frames and unframes
    assert_eq!(frame_payload(&encode_frame(&vec![])), Some(vec![]));
}

#[test]
fn unknown_file_type_code_reads_as_other() {
    // a stat response whose type byte is from a newer protocol revision
    let mut bytes = encode_response(&Response::Stat { kind: FileKind::File, size: 3 });
    bytes[1] = 9;
    assert_eq!(
        parse_response(&bytes),
        Some(Response::Stat { kind: FileKind::Other, size: 3 })
    );
}
