//! The backend channel: a duplex byte stream plus the framing that makes
//! message boundaries explicit on it.

use vstd::prelude::*;
use crate::errno::EIO;
use crate::mounts::{lemma_update_same_path, Mounts};
use crate::path::push_all;
use crate::wire::{encode_frame, encode_request, frame_len, frame_payload, req_wf, Request, MAX_FRAME};

verus! {

/// A duplex byte-stream channel to one backend: hand bytes over, take bytes
/// back. Blocking, one outstanding request at a time; no further semantics.
pub trait Socket {
    /// Hand bytes to the transport.
    fn write(&mut self, data: &[u8]);

    /// Take the bytes the transport has; an empty answer means the channel
    /// is gone.
    fn read(&mut self) -> Vec<u8>;
}

/// How many bytes are still missing from a target length.
pub open spec fn lack(target: int, have: int) -> int {
    if have < target {
        target - have
    } else {
        0
    }
}

/// Send one payload as one frame: its length, then its bytes.
pub fn send_frame<S: Socket>(sock: &mut S, payload: &Vec<u8>)
    requires
        payload@.len() <= MAX_FRAME,
{
    let framed = encode_frame(payload);
    sock.write(framed.as_slice());
}

/// Receive one frame and hand its payload back. The frame boundary comes
/// from the length prefix alone, never from transport read boundaries, and
/// the accepted bytes are decided by `frame_payload`: exactly one header
/// whose big-endian value equals the payload length, within bounds. A
/// closed channel, an oversized frame, or bytes beyond the one expected
/// frame tear the round trip down.
pub fn recv_frame<S: Socket>(sock: &mut S) -> (r: Result<Vec<u8>, i32>)
    ensures
        r matches Ok(v) ==> v@.len() <= MAX_FRAME,
{
    let mut buf: Vec<u8> = Vec::new();
    while buf.len() < 4
        invariant
            true,
        decreases lack(4, buf@.len() as int),
    {
        let chunk = sock.read();
        if chunk.len() == 0 {
            return Err(EIO as i32);
        }
        push_all(&mut buf, &chunk);
    }
    let need = frame_len(&buf);
    if need as usize > MAX_FRAME {
        return Err(EIO as i32);
    }
    let total: usize = 4 + need as usize;
    while buf.len() < total
        invariant
            total <= 4 + MAX_FRAME,
        decreases lack(total as int, buf@.len() as int),
    {
        let chunk = sock.read();
        if chunk.len() == 0 {
            return Err(EIO as i32);
        }
        push_all(&mut buf, &chunk);
    }
    match frame_payload(&buf) {
        Some(payload) => Ok(payload),
        None => Err(EIO as i32),
    }
}

/// One backend round trip: send the request as a frame, block for the
/// answering frame, hand its payload back.
pub fn round_trip<S: Socket>(sock: &mut S, req: &Request) -> (r: Result<Vec<u8>, i32>)
    requires
        req_wf(req@),
    ensures
        r matches Ok(v) ==> v@.len() <= MAX_FRAME,
{
    let payload = encode_request(req);
    send_frame(sock, &payload);
    recv_frame(sock)
}

/// One round trip with the backend of the mount registered under exactly
/// this prefix. The registry's prefixes and order are untouched; only that
/// mount's channel state moves.
pub fn mount_round_trip<S: Socket>(
    mounts: &mut Mounts<S>,
    mountpoint: &Vec<u8>,
    req: &Request,
) -> (r: Result<Vec<u8>, i32>)
    requires
        old(mounts).wf(),
        old(mounts).has_exact(mountpoint@),
        req_wf(req@),
    ensures
        final(mounts).wf(),
        final(mounts).prefixes() == old(mounts).prefixes(),
        forall|p: Seq<u8>| final(mounts).has_exact(p) == old(mounts).has_exact(p),
        forall|p: Seq<u8>| final(mounts).covers(p) == old(mounts).covers(p),
        r matches Ok(v) ==> v@.len() <= MAX_FRAME,
{
    let ghost pre = *mounts;
    let ghost gi = pre.index_of_exact(mountpoint@);
    let m = mounts.get_mount_mut(mountpoint);
    let resp = round_trip(&mut m.socket, req);
    proof {
        lemma_update_same_path(&pre, &*mounts, gi, mounts.mounts_seq()[gi]);
    }
    resp
}

} // verus!
