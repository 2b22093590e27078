//! The wire protocol spoken with a backend.
//!
//! Each message travels as one frame: a 4-byte big-endian payload length,
//! then the payload. The payload is a tag byte followed by the fields of the
//! message; byte-string fields carry their own 4-byte big-endian length.

use vstd::prelude::*;
use crate::path::push_all;

verus! {

/// Longest byte-string field a message may carry.
pub const MAX_FIELD: usize = 0x00FF_FFFF;

/// Longest frame payload accepted from a backend: room for the longest
/// field plus a tag and the fixed-width fields beside it.
pub const MAX_FRAME: usize = MAX_FIELD + 16;

pub const TAG_REQ_OPEN: u8 = 1;
pub const TAG_REQ_CLOSE: u8 = 2;
pub const TAG_REQ_READ: u8 = 3;
pub const TAG_REQ_STAT: u8 = 4;
pub const TAG_REQ_FSTAT: u8 = 5;

pub const TAG_RES_ERROR: u8 = 0;
pub const TAG_RES_FD: u8 = 1;
pub const TAG_RES_STAT: u8 = 2;
pub const TAG_RES_DATA: u8 = 3;
pub const TAG_RES_EMPTY: u8 = 4;

/// The coarse file type a backend reports.
#[derive(Clone, Copy, Debug, PartialEq, Eq, Structural)]
pub enum FileKind {
    Other,
    File,
    Directory,
}

/// A request to a backend.
#[derive(Debug, PartialEq, Eq)]
pub enum Request {
    Open { path: Vec<u8> },
    Close { id: Vec<u8> },
    Read { id: Vec<u8>, len: u64 },
    Stat { path: Vec<u8> },
    Fstat { id: Vec<u8> },
}

/// A backend's answer: an error code or one success payload.
#[derive(Debug, PartialEq, Eq)]
pub enum Response {
    Error { code: u32 },
    Fd { id: Vec<u8> },
    Stat { kind: FileKind, size: u64 },
    Data { data: Vec<u8> },
    Empty,
}

/// The mathematical value of a request.
pub enum ReqModel {
    Open { path: Seq<u8> },
    Close { id: Seq<u8> },
    Read { id: Seq<u8>, len: u64 },
    Stat { path: Seq<u8> },
    Fstat { id: Seq<u8> },
}

/// The mathematical value of a response.
pub enum RespModel {
    Error { code: u32 },
    Fd { id: Seq<u8> },
    Stat { kind: FileKind, size: u64 },
    Data { data: Seq<u8> },
    Empty,
}

impl View for Request {
    type V = ReqModel;

    open spec fn view(&self) -> ReqModel {
        match self {
            Request::Open { path } => ReqModel::Open { path: path@ },
            Request::Close { id } => ReqModel::Close { id: id@ },
            Request::Read { id, len } => ReqModel::Read { id: id@, len: *len },
            Request::Stat { path } => ReqModel::Stat { path: path@ },
            Request::Fstat { id } => ReqModel::Fstat { id: id@ },
        }
    }
}

impl View for Response {
    type V = RespModel;

    open spec fn view(&self) -> RespModel {
        match self {
            Response::Error { code } => RespModel::Error { code: *code },
            Response::Fd { id } => RespModel::Fd { id: id@ },
            Response::Stat { kind, size } => RespModel::Stat { kind: *kind, size: *size },
            Response::Data { data } => RespModel::Data { data: data@ },
            Response::Empty => RespModel::Empty,
        }
    }
}

/// A request whose fields fit the wire format's length fields.
pub open spec fn req_wf(m: ReqModel) -> bool {
    match m {
        ReqModel::Open { path } => path.len() <= MAX_FIELD,
        ReqModel::Close { id } => id.len() <= MAX_FIELD,
        ReqModel::Read { id, len } => id.len() <= MAX_FIELD,
        ReqModel::Stat { path } => path.len() <= MAX_FIELD,
        ReqModel::Fstat { id } => id.len() <= MAX_FIELD,
    }
}

/// A response whose fields fit the wire format's length fields.
pub open spec fn resp_wf(m: RespModel) -> bool {
    match m {
        RespModel::Error { code } => true,
        RespModel::Fd { id } => id.len() <= MAX_FIELD,
        RespModel::Stat { kind, size } => true,
        RespModel::Data { data } => data.len() <= MAX_FIELD,
        RespModel::Empty => true,
    }
}

pub open spec fn u32_be(n: u32) -> Seq<u8> {
    seq![
        ((n >> 24) & 0xFF) as u8,
        ((n >> 16) & 0xFF) as u8,
        ((n >> 8) & 0xFF) as u8,
        (n & 0xFF) as u8,
    ]
}

pub open spec fn u64_be(n: u64) -> Seq<u8> {
    seq![
        ((n >> 56) & 0xFF) as u8,
        ((n >> 48) & 0xFF) as u8,
        ((n >> 40) & 0xFF) as u8,
        ((n >> 32) & 0xFF) as u8,
        ((n >> 24) & 0xFF) as u8,
        ((n >> 16) & 0xFF) as u8,
        ((n >> 8) & 0xFF) as u8,
        (n & 0xFF) as u8,
    ]
}

pub open spec fn u32_from_be(s: Seq<u8>) -> u32
    recommends
        s.len() == 4,
{
    ((s[0] as u32) << 24) | ((s[1] as u32) << 16) | ((s[2] as u32) << 8) | (s[3] as u32)
}

pub open spec fn u64_from_be(s: Seq<u8>) -> u64
    recommends
        s.len() == 8,
{
    ((s[0] as u64) << 56) | ((s[1] as u64) << 48) | ((s[2] as u64) << 40)
        | ((s[3] as u64) << 32) | ((s[4] as u64) << 24) | ((s[5] as u64) << 16)
        | ((s[6] as u64) << 8) | (s[7] as u64)
}

/// A byte-string field as it stands on the wire: its length, then its bytes.
pub open spec fn lp(field: Seq<u8>) -> Seq<u8> {
    u32_be(field.len() as u32) + field
}

pub open spec fn kind_byte(k: FileKind) -> u8 {
    match k {
        FileKind::Other => 0,
        FileKind::File => 1,
        FileKind::Directory => 2,
    }
}

/// Unknown type codes fall back to `Other`, as a backend may be newer.
pub open spec fn byte_kind(b: u8) -> FileKind {
    if b == 1 {
        FileKind::File
    } else if b == 2 {
        FileKind::Directory
    } else {
        FileKind::Other
    }
}

pub open spec fn spec_encode_request(m: ReqModel) -> Seq<u8> {
    match m {
        ReqModel::Open { path } => seq![TAG_REQ_OPEN] + lp(path),
        ReqModel::Close { id } => seq![TAG_REQ_CLOSE] + lp(id),
        ReqModel::Read { id, len } => seq![TAG_REQ_READ] + lp(id) + u64_be(len),
        ReqModel::Stat { path } => seq![TAG_REQ_STAT] + lp(path),
        ReqModel::Fstat { id } => seq![TAG_REQ_FSTAT] + lp(id),
    }
}

pub open spec fn spec_encode_response(m: RespModel) -> Seq<u8> {
    match m {
        RespModel::Error { code } => seq![TAG_RES_ERROR] + u32_be(code),
        RespModel::Fd { id } => seq![TAG_RES_FD] + lp(id),
        RespModel::Stat { kind, size } => seq![TAG_RES_STAT, kind_byte(kind)] + u64_be(size),
        RespModel::Data { data } => seq![TAG_RES_DATA] + lp(data),
        RespModel::Empty => seq![TAG_RES_EMPTY],
    }
}

/// Parse a payload that must consist of exactly one length-prefixed field.
pub open spec fn spec_parse_lp(b: Seq<u8>) -> Option<Seq<u8>> {
    if b.len() < 4 {
        None
    } else if b.len() - 4 == u32_from_be(b.subrange(0, 4)) {
        Some(b.skip(4))
    } else {
        None
    }
}

pub open spec fn spec_parse_request(b: Seq<u8>) -> Option<ReqModel> {
    if b.len() < 1 {
        None
    } else {
        let t = b[0];
        let rest = b.skip(1);
        if t == TAG_REQ_OPEN {
            match spec_parse_lp(rest) {
                Some(f) => Some(ReqModel::Open { path: f }),
                None => None,
            }
        } else if t == TAG_REQ_CLOSE {
            match spec_parse_lp(rest) {
                Some(f) => Some(ReqModel::Close { id: f }),
                None => None,
            }
        } else if t == TAG_REQ_READ {
            if rest.len() < 12 {
                None
            } else if rest.len() - 12 == u32_from_be(rest.subrange(0, 4)) {
                Some(ReqModel::Read {
                    id: rest.subrange(4, rest.len() - 8),
                    len: u64_from_be(rest.skip(rest.len() - 8)),
                })
            } else {
                None
            }
        } else if t == TAG_REQ_STAT {
            match spec_parse_lp(rest) {
                Some(f) => Some(ReqModel::Stat { path: f }),
                None => None,
            }
        } else if t == TAG_REQ_FSTAT {
            match spec_parse_lp(rest) {
                Some(f) => Some(ReqModel::Fstat { id: f }),
                None => None,
            }
        } else {
            None
        }
    }
}

pub open spec fn spec_parse_response(b: Seq<u8>) -> Option<RespModel> {
    if b.len() < 1 {
        None
    } else {
        let t = b[0];
        let rest = b.skip(1);
        if t == TAG_RES_ERROR {
            if rest.len() == 4 {
                Some(RespModel::Error { code: u32_from_be(rest) })
            } else {
                None
            }
        } else if t == TAG_RES_FD {
            match spec_parse_lp(rest) {
                Some(f) => Some(RespModel::Fd { id: f }),
                None => None,
            }
        } else if t == TAG_RES_STAT {
            if rest.len() == 9 {
                Some(RespModel::Stat { kind: byte_kind(rest[0]), size: u64_from_be(rest.skip(1)) })
            } else {
                None
            }
        } else if t == TAG_RES_DATA {
            match spec_parse_lp(rest) {
                Some(f) => Some(RespModel::Data { data: f }),
                None => None,
            }
        } else if t == TAG_RES_EMPTY {
            if rest.len() == 0 {
                Some(RespModel::Empty)
            } else {
                None
            }
        } else {
            None
        }
    }
}

proof fn lemma_u32_round(n: u32)
    ensures
        u32_from_be(u32_be(n)) == n,
{
    let b0 = ((n >> 24) & 0xFF) as u8;
    let b1 = ((n >> 16) & 0xFF) as u8;
    let b2 = ((n >> 8) & 0xFF) as u8;
    let b3 = (n & 0xFF) as u8;
    assert(((b0 as u32) << 24) | ((b1 as u32) << 16) | ((b2 as u32) << 8) | (b3 as u32) == n)
        by (bit_vector)
        requires
            b0 == ((n >> 24) & 0xFF) as u8,
            b1 == ((n >> 16) & 0xFF) as u8,
            b2 == ((n >> 8) & 0xFF) as u8,
            b3 == (n & 0xFF) as u8,
    ;
}

proof fn lemma_u64_round(n: u64)
    ensures
        u64_from_be(u64_be(n)) == n,
{
    let b0 = ((n >> 56) & 0xFF) as u8;
    let b1 = ((n >> 48) & 0xFF) as u8;
    let b2 = ((n >> 40) & 0xFF) as u8;
    let b3 = ((n >> 32) & 0xFF) as u8;
    let b4 = ((n >> 24) & 0xFF) as u8;
    let b5 = ((n >> 16) & 0xFF) as u8;
    let b6 = ((n >> 8) & 0xFF) as u8;
    let b7 = (n & 0xFF) as u8;
    assert(((b0 as u64) << 56) | ((b1 as u64) << 48) | ((b2 as u64) << 40) | ((b3 as u64) << 32)
        | ((b4 as u64) << 24) | ((b5 as u64) << 16) | ((b6 as u64) << 8) | (b7 as u64) == n)
        by (bit_vector)
        requires
            b0 == ((n >> 56) & 0xFF) as u8,
            b1 == ((n >> 48) & 0xFF) as u8,
            b2 == ((n >> 40) & 0xFF) as u8,
            b3 == ((n >> 32) & 0xFF) as u8,
            b4 == ((n >> 24) & 0xFF) as u8,
            b5 == ((n >> 16) & 0xFF) as u8,
            b6 == ((n >> 8) & 0xFF) as u8,
            b7 == (n & 0xFF) as u8,
    ;
}

proof fn lemma_lp_round(f: Seq<u8>)
    requires
        f.len() <= MAX_FIELD,
    ensures
        spec_parse_lp(lp(f)) == Some(f),
{
    lemma_u32_round(f.len() as u32);
    assert(lp(f).subrange(0, 4) =~= u32_be(f.len() as u32));
    assert(lp(f).skip(4) =~= f);
}

/// Decoding what was encoded gives back the request, for every well-formed
/// request.
pub proof fn lemma_request_round_trip(m: ReqModel)
    requires
        req_wf(m),
    ensures
        spec_parse_request(spec_encode_request(m)) == Some(m),
{
    let b = spec_encode_request(m);
    match m {
        ReqModel::Open { path } => {
            assert(b.skip(1) =~= lp(path));
            lemma_lp_round(path);
        },
        ReqModel::Close { id } => {
            assert(b.skip(1) =~= lp(id));
            lemma_lp_round(id);
        },
        ReqModel::Read { id, len } => {
            let rest = b.skip(1);
            assert(rest =~= lp(id) + u64_be(len));
            lemma_u32_round(id.len() as u32);
            assert(rest.subrange(0, 4) =~= u32_be(id.len() as u32));
            assert(rest.subrange(4, rest.len() - 8) =~= id);
            assert(rest.skip(rest.len() - 8) =~= u64_be(len));
            lemma_u64_round(len);
        },
        ReqModel::Stat { path } => {
            assert(b.skip(1) =~= lp(path));
            lemma_lp_round(path);
        },
        ReqModel::Fstat { id } => {
            assert(b.skip(1) =~= lp(id));
            lemma_lp_round(id);
        },
    }
}

/// Decoding what was encoded gives back the response, for every well-formed
/// response.
pub proof fn lemma_response_round_trip(m: RespModel)
    requires
        resp_wf(m),
    ensures
        spec_parse_response(spec_encode_response(m)) == Some(m),
{
    let b = spec_encode_response(m);
    match m {
        RespModel::Error { code } => {
            assert(b.skip(1) =~= u32_be(code));
            let s = u32_be(code);
            let c0 = ((code >> 24) & 0xFF) as u8;
            let c1 = ((code >> 16) & 0xFF) as u8;
            let c2 = ((code >> 8) & 0xFF) as u8;
            let c3 = (code & 0xFF) as u8;
            assert(((c0 as u32) << 24) | ((c1 as u32) << 16) | ((c2 as u32) << 8) | (c3 as u32)
                == code)
                by (bit_vector)
                requires
                    c0 == ((code >> 24) & 0xFF) as u8,
                    c1 == ((code >> 16) & 0xFF) as u8,
                    c2 == ((code >> 8) & 0xFF) as u8,
                    c3 == (code & 0xFF) as u8,
            ;
        },
        RespModel::Fd { id } => {
            assert(b.skip(1) =~= lp(id));
            lemma_lp_round(id);
        },
        RespModel::Stat { kind, size } => {
            let rest = b.skip(1);
            assert(rest =~= seq![kind_byte(kind)] + u64_be(size));
            assert(rest.skip(1) =~= u64_be(size));
            lemma_u64_round(size);
            assert(byte_kind(kind_byte(kind)) == kind);
        },
        RespModel::Data { data } => {
            assert(b.skip(1) =~= lp(data));
            lemma_lp_round(data);
        },
        RespModel::Empty => {
            assert(b.skip(1) =~= Seq::<u8>::empty());
        },
    }
}

fn push_be32(dst: &mut Vec<u8>, n: u32)
    ensures
        final(dst)@ == old(dst)@ + u32_be(n),
{
    dst.push(((n >> 24) & 0xFF) as u8);
    dst.push(((n >> 16) & 0xFF) as u8);
    dst.push(((n >> 8) & 0xFF) as u8);
    dst.push((n & 0xFF) as u8);
    proof {
        assert(dst@ =~= old(dst)@ + u32_be(n));
    }
}

fn push_be64(dst: &mut Vec<u8>, n: u64)
    ensures
        final(dst)@ == old(dst)@ + u64_be(n),
{
    dst.push(((n >> 56) & 0xFF) as u8);
    dst.push(((n >> 48) & 0xFF) as u8);
    dst.push(((n >> 40) & 0xFF) as u8);
    dst.push(((n >> 32) & 0xFF) as u8);
    dst.push(((n >> 24) & 0xFF) as u8);
    dst.push(((n >> 16) & 0xFF) as u8);
    dst.push(((n >> 8) & 0xFF) as u8);
    dst.push((n & 0xFF) as u8);
    proof {
        assert(dst@ =~= old(dst)@ + u64_be(n));
    }
}

fn push_lp(dst: &mut Vec<u8>, field: &Vec<u8>)
    requires
        field@.len() <= MAX_FIELD,
    ensures
        final(dst)@ == old(dst)@ + lp(field@),
{
    push_be32(dst, field.len() as u32);
    push_all(dst, field);
    proof {
        assert(dst@ =~= old(dst)@ + lp(field@));
    }
}

/// Turn a request into its payload bytes.
pub fn encode_request(m: &Request) -> (out: Vec<u8>)
    requires
        req_wf(m@),
    ensures
        out@ == spec_encode_request(m@),
{
    let mut out: Vec<u8> = Vec::new();
    match m {
        Request::Open { path } => {
            out.push(TAG_REQ_OPEN);
            push_lp(&mut out, path);
        },
        Request::Close { id } => {
            out.push(TAG_REQ_CLOSE);
            push_lp(&mut out, id);
        },
        Request::Read { id, len } => {
            out.push(TAG_REQ_READ);
            push_lp(&mut out, id);
            push_be64(&mut out, *len);
        },
        Request::Stat { path } => {
            out.push(TAG_REQ_STAT);
            push_lp(&mut out, path);
        },
        Request::Fstat { id } => {
            out.push(TAG_REQ_FSTAT);
            push_lp(&mut out, id);
        },
    }
    proof {
        assert(out@ =~= spec_encode_request(m@));
    }
    out
}

/// Turn a response into its payload bytes.
pub fn encode_response(m: &Response) -> (out: Vec<u8>)
    requires
        resp_wf(m@),
    ensures
        out@ == spec_encode_response(m@),
{
    let mut out: Vec<u8> = Vec::new();
    match m {
        Response::Error { code } => {
            out.push(TAG_RES_ERROR);
            push_be32(&mut out, *code);
        },
        Response::Fd { id } => {
            out.push(TAG_RES_FD);
            push_lp(&mut out, id);
        },
        Response::Stat { kind, size } => {
            out.push(TAG_RES_STAT);
            let kb: u8 = match kind {
                FileKind::Other => 0,
                FileKind::File => 1,
                FileKind::Directory => 2,
            };
            out.push(kb);
            push_be64(&mut out, *size);
        },
        Response::Data { data } => {
            out.push(TAG_RES_DATA);
            push_lp(&mut out, data);
        },
        Response::Empty => {
            out.push(TAG_RES_EMPTY);
        },
    }
    proof {
        assert(out@ =~= spec_encode_response(m@));
    }
    out
}

/// Copy `data[start..end]` out into a fresh byte string.
pub fn subvec(data: &Vec<u8>, start: usize, end: usize) -> (r: Vec<u8>)
    requires
        start <= end <= data@.len(),
    ensures
        r@ == data@.subrange(start as int, end as int),
{
    let mut out: Vec<u8> = Vec::new();
    let mut i: usize = start;
    while i < end
        invariant
            start <= i <= end <= data@.len(),
            out@ == data@.subrange(start as int, i as int),
        decreases end - i,
    {
        out.push(data[i]);
        i = i + 1;
        proof {
            assert(data@.subrange(start as int, i as int)
                =~= data@.subrange(start as int, i - 1) + seq![data@[i - 1]]);
        }
    }
    out
}

fn read_be32(data: &Vec<u8>, off: usize) -> (r: u32)
    requires
        off + 4 <= data@.len(),
    ensures
        r == u32_from_be(data@.subrange(off as int, off + 4)),
{
    let n = data.len();
    let r = ((data[off] as u32) << 24) | ((data[off + 1] as u32) << 16)
        | ((data[off + 2] as u32) << 8) | (data[off + 3] as u32);
    proof {
        let s = data@.subrange(off as int, off + 4);
        assert(s[0] == data@[off as int] && s[1] == data@[off + 1] && s[2] == data@[off + 2]
            && s[3] == data@[off + 3]);
    }
    r
}

fn read_be64(data: &Vec<u8>, off: usize) -> (r: u64)
    requires
        off + 8 <= data@.len(),
    ensures
        r == u64_from_be(data@.subrange(off as int, off + 8)),
{
    let n = data.len();
    let r = ((data[off] as u64) << 56) | ((data[off + 1] as u64) << 48)
        | ((data[off + 2] as u64) << 40) | ((data[off + 3] as u64) << 32)
        | ((data[off + 4] as u64) << 24) | ((data[off + 5] as u64) << 16)
        | ((data[off + 6] as u64) << 8) | (data[off + 7] as u64);
    proof {
        let s = data@.subrange(off as int, off + 8);
        assert(s[0] == data@[off as int] && s[1] == data@[off + 1] && s[2] == data@[off + 2]
            && s[3] == data@[off + 3] && s[4] == data@[off + 4] && s[5] == data@[off + 5]
            && s[6] == data@[off + 6] && s[7] == data@[off + 7]);
    }
    r
}

/// Read the one length-prefixed field that must fill `data[1..]` exactly.
fn parse_lp_rest(data: &Vec<u8>) -> (r: Option<Vec<u8>>)
    requires
        data@.len() >= 1,
    ensures
        match r {
            Some(f) => spec_parse_lp(data@.skip(1)) == Some(f@),
            None => spec_parse_lp(data@.skip(1)) is None,
        },
{
    let n = data.len();
    proof {
        assert(data@.skip(1).len() == n - 1);
    }
    if n < 5 {
        return None;
    }
    let flen = read_be32(data, 1);
    proof {
        assert(data@.subrange(1, 5) =~= data@.skip(1).subrange(0, 4));
    }
    if flen as usize == n - 5 {
        let f = subvec(data, 5, n);
        proof {
            assert(f@ =~= data@.skip(1).skip(4));
        }
        Some(f)
    } else {
        None
    }
}

/// Parse a request payload; `None` is a malformed payload.
pub fn parse_request(data: &Vec<u8>) -> (r: Option<Request>)
    ensures
        match r {
            Some(m) => spec_parse_request(data@) == Some(m@),
            None => spec_parse_request(data@) is None,
        },
{
    let n = data.len();
    if n < 1 {
        return None;
    }
    let t = data[0];
    if t == TAG_REQ_OPEN {
        match parse_lp_rest(data) {
            Some(f) => Some(Request::Open { path: f }),
            None => None,
        }
    } else if t == TAG_REQ_CLOSE {
        match parse_lp_rest(data) {
            Some(f) => Some(Request::Close { id: f }),
            None => None,
        }
    } else if t == TAG_REQ_READ {
        proof {
            assert(data@.skip(1).len() == n - 1);
        }
        if n < 13 {
            return None;
        }
        let idlen = read_be32(data, 1);
        proof {
            assert(data@.subrange(1, 5) =~= data@.skip(1).subrange(0, 4));
        }
        if idlen as usize == n - 13 {
            let id = subvec(data, 5, n - 8);
            let len = read_be64(data, n - 8);
            proof {
                let rest = data@.skip(1);
                assert(id@ =~= rest.subrange(4, rest.len() - 8));
                assert(data@.subrange(n - 8, n as int) =~= rest.skip(rest.len() - 8));
            }
            Some(Request::Read { id, len })
        } else {
            None
        }
    } else if t == TAG_REQ_STAT {
        match parse_lp_rest(data) {
            Some(f) => Some(Request::Stat { path: f }),
            None => None,
        }
    } else if t == TAG_REQ_FSTAT {
        match parse_lp_rest(data) {
            Some(f) => Some(Request::Fstat { id: f }),
            None => None,
        }
    } else {
        None
    }
}

/// Parse a response payload; `None` is a malformed payload.
pub fn parse_response(data: &Vec<u8>) -> (r: Option<Response>)
    ensures
        match r {
            Some(m) => spec_parse_response(data@) == Some(m@),
            None => spec_parse_response(data@) is None,
        },
{
    let n = data.len();
    if n < 1 {
        return None;
    }
    let t = data[0];
    proof {
        assert(data@.skip(1).len() == n - 1);
    }
    if t == TAG_RES_ERROR {
        if n == 5 {
            let code = read_be32(data, 1);
            proof {
                assert(data@.subrange(1, 5) =~= data@.skip(1));
            }
            Some(Response::Error { code })
        } else {
            None
        }
    } else if t == TAG_RES_FD {
        match parse_lp_rest(data) {
            Some(f) => Some(Response::Fd { id: f }),
            None => None,
        }
    } else if t == TAG_RES_STAT {
        if n == 10 {
            let kb = data[1];
            let kind = if kb == 1 {
                FileKind::File
            } else if kb == 2 {
                FileKind::Directory
            } else {
                FileKind::Other
            };
            let size = read_be64(data, 2);
            proof {
                let rest = data@.skip(1);
                assert(rest[0] == data@[1]);
                assert(data@.subrange(2, 10) =~= rest.skip(1));
            }
            Some(Response::Stat { kind, size })
        } else {
            None
        }
    } else if t == TAG_RES_DATA {
        match parse_lp_rest(data) {
            Some(f) => Some(Response::Data { data: f }),
            None => None,
        }
    } else if t == TAG_RES_EMPTY {
        if n == 1 {
            Some(Response::Empty)
        } else {
            None
        }
    } else {
        None
    }
}

/// Whether `buf` holds exactly one complete frame, and its payload: a
/// 4-byte big-endian length, that many payload bytes within the frame
/// bound, and nothing else.
pub open spec fn spec_frame(buf: Seq<u8>) -> Option<Seq<u8>> {
    if buf.len() < 4 {
        None
    } else if buf.len() - 4 == u32_from_be(buf.subrange(0, 4)) && buf.len() - 4 <= MAX_FRAME {
        Some(buf.skip(4))
    } else {
        None
    }
}

/// Decide whether the bytes received so far hold exactly one frame, and cut
/// its payload out.
pub fn frame_payload(buf: &Vec<u8>) -> (r: Option<Vec<u8>>)
    ensures
        match r {
            Some(v) => spec_frame(buf@) == Some(v@) && v@.len() <= MAX_FRAME,
            None => spec_frame(buf@) is None,
        },
{
    let n = buf.len();
    if n < 4 {
        return None;
    }
    let need = read_be32(buf, 0);
    if need as usize <= MAX_FRAME && n - 4 == need as usize {
        let payload = subvec(buf, 4, n);
        proof {
            assert(payload@ =~= buf@.skip(4));
        }
        Some(payload)
    } else {
        None
    }
}

/// Unwrapping a wrapped payload gives it back, for every payload within the
/// frame bound.
pub proof fn lemma_frame_round_trip(payload: Seq<u8>)
    requires
        payload.len() <= MAX_FRAME,
    ensures
        spec_frame(u32_be(payload.len() as u32) + payload) == Some(payload),
{
    lemma_u32_round(payload.len() as u32);
    let framed = u32_be(payload.len() as u32) + payload;
    assert(framed.subrange(0, 4) =~= u32_be(payload.len() as u32));
    assert(framed.skip(4) =~= payload);
}

/// Wrap a payload in its frame: the payload length, then the payload.
pub fn encode_frame(payload: &Vec<u8>) -> (out: Vec<u8>)
    requires
        payload@.len() <= MAX_FRAME,
    ensures
        out@ == u32_be(payload@.len() as u32) + payload@,
{
    let mut out: Vec<u8> = Vec::new();
    push_be32(&mut out, payload.len() as u32);
    push_all(&mut out, payload);
    out
}

/// Read a frame header: how many payload bytes follow.
pub fn frame_len(header: &Vec<u8>) -> (r: u32)
    requires
        header@.len() >= 4,
    ensures
        r == u32_from_be(header@.subrange(0, 4)),
{
    read_be32(header, 0)
}

} // verus!
