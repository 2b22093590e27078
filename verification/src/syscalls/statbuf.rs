//! Fabrication of native status structures (x86_64 layout): only the type
//! bits and the size field are set, every other field stays zero.

use vstd::prelude::*;
use crate::wire::FileKind;

verus! {

/// Size of the native `stat` structure.
pub const STAT_SIZE: usize = 144;

/// Size of the native `statx` structure.
pub const STATX_SIZE: usize = 256;

/// The regular-file bit of the mode field.
pub const S_IFREG_BITS: u32 = 0x8000;

/// The directory bit of the mode field.
pub const S_IFDIR_BITS: u32 = 0x4000;

/// Largest value the signed size field of `stat` can carry.
pub const STAT_SIZE_MAX: u64 = 0x7FFF_FFFF_FFFF_FFFF;

/// The mode bits that stand for a backend-reported file type.
pub open spec fn mode_bits(kind: FileKind) -> u32 {
    match kind {
        FileKind::File => S_IFREG_BITS,
        FileKind::Directory => S_IFDIR_BITS,
        FileKind::Other => 0u32,
    }
}

/// A size as the signed `st_size` field carries it: saturated at its top.
pub open spec fn clamp_size(size: u64) -> u64 {
    if size > STAT_SIZE_MAX {
        STAT_SIZE_MAX
    } else {
        size
    }
}

pub open spec fn u16_le(n: u16) -> Seq<u8> {
    seq![(n & 0xFF) as u8, ((n >> 8) & 0xFF) as u8]
}

pub open spec fn u32_le(n: u32) -> Seq<u8> {
    seq![
        (n & 0xFF) as u8,
        ((n >> 8) & 0xFF) as u8,
        ((n >> 16) & 0xFF) as u8,
        ((n >> 24) & 0xFF) as u8,
    ]
}

pub open spec fn u64_le(n: u64) -> Seq<u8> {
    seq![
        (n & 0xFF) as u8,
        ((n >> 8) & 0xFF) as u8,
        ((n >> 16) & 0xFF) as u8,
        ((n >> 24) & 0xFF) as u8,
        ((n >> 32) & 0xFF) as u8,
        ((n >> 40) & 0xFF) as u8,
        ((n >> 48) & 0xFF) as u8,
        ((n >> 56) & 0xFF) as u8,
    ]
}

/// The bytes of the fabricated `stat` structure: zeros up to the mode field
/// at offset 24, the type bits, zeros up to the size field at offset 48, the
/// saturated size, zeros to the end.
pub open spec fn stat_image(kind: FileKind, size: u64) -> Seq<u8> {
    Seq::new(24, |j: int| 0u8) + u32_le(mode_bits(kind)) + Seq::new(20, |j: int| 0u8)
        + u64_le(clamp_size(size)) + Seq::new(88, |j: int| 0u8)
}

/// The bytes of the fabricated `statx` structure: the 16-bit mode field at
/// offset 28, the unsigned size at offset 40, zeros elsewhere.
pub open spec fn statx_image(kind: FileKind, size: u64) -> Seq<u8> {
    Seq::new(28, |j: int| 0u8) + u16_le(mode_bits(kind) as u16) + Seq::new(10, |j: int| 0u8)
        + u64_le(size) + Seq::new(208, |j: int| 0u8)
}

fn push_zeros(dst: &mut Vec<u8>, n: usize)
    ensures
        final(dst)@ == old(dst)@ + Seq::new(n as nat, |j: int| 0u8),
{
    let mut i: usize = 0;
    while i < n
        invariant
            i <= n,
            dst@ == old(dst)@ + Seq::new(i as nat, |j: int| 0u8),
        decreases n - i,
    {
        dst.push(0);
        i = i + 1;
        proof {
            assert(dst@ =~= old(dst)@ + Seq::new(i as nat, |j: int| 0u8));
        }
    }
    proof {
        assert(dst@ =~= old(dst)@ + Seq::new(n as nat, |j: int| 0u8));
    }
}

fn push_le16(dst: &mut Vec<u8>, n: u16)
    ensures
        final(dst)@ == old(dst)@ + u16_le(n),
{
    dst.push((n & 0xFF) as u8);
    dst.push(((n >> 8) & 0xFF) as u8);
    proof {
        assert(dst@ =~= old(dst)@ + u16_le(n));
    }
}

fn push_le32(dst: &mut Vec<u8>, n: u32)
    ensures
        final(dst)@ == old(dst)@ + u32_le(n),
{
    dst.push((n & 0xFF) as u8);
    dst.push(((n >> 8) & 0xFF) as u8);
    dst.push(((n >> 16) & 0xFF) as u8);
    dst.push(((n >> 24) & 0xFF) as u8);
    proof {
        assert(dst@ =~= old(dst)@ + u32_le(n));
    }
}

fn push_le64(dst: &mut Vec<u8>, n: u64)
    ensures
        final(dst)@ == old(dst)@ + u64_le(n),
{
    dst.push((n & 0xFF) as u8);
    dst.push(((n >> 8) & 0xFF) as u8);
    dst.push(((n >> 16) & 0xFF) as u8);
    dst.push(((n >> 24) & 0xFF) as u8);
    dst.push(((n >> 32) & 0xFF) as u8);
    dst.push(((n >> 40) & 0xFF) as u8);
    dst.push(((n >> 48) & 0xFF) as u8);
    dst.push(((n >> 56) & 0xFF) as u8);
    proof {
        assert(dst@ =~= old(dst)@ + u64_le(n));
    }
}

fn mode_of(kind: FileKind) -> (r: u32)
    ensures
        r == mode_bits(kind),
{
    match kind {
        FileKind::File => S_IFREG_BITS,
        FileKind::Directory => S_IFDIR_BITS,
        FileKind::Other => 0,
    }
}

/// Fabricate the native `stat` structure for a backend's answer: the type
/// bits of the mode field and the saturated size, everything else zero.
pub fn encode_stat_struct(kind: FileKind, size: u64) -> (r: Vec<u8>)
    ensures
        r@ == stat_image(kind, size),
        r@.len() == STAT_SIZE,
        r@.subrange(24, 28) == u32_le(mode_bits(kind)),
        r@.subrange(48, 56) == u64_le(clamp_size(size)),
{
    let mut out: Vec<u8> = Vec::new();
    push_zeros(&mut out, 24);
    push_le32(&mut out, mode_of(kind));
    push_zeros(&mut out, 20);
    let sz = if size > STAT_SIZE_MAX {
        STAT_SIZE_MAX
    } else {
        size
    };
    push_le64(&mut out, sz);
    push_zeros(&mut out, 88);
    proof {
        assert(out@ =~= stat_image(kind, size));
        assert(out@.subrange(24, 28) =~= u32_le(mode_bits(kind)));
        assert(out@.subrange(48, 56) =~= u64_le(clamp_size(size)));
    }
    out
}

/// Fabricate the native `statx` structure for a backend's answer: the 16-bit
/// mode field and the unsigned size, everything else zero.
pub fn encode_statx_struct(kind: FileKind, size: u64) -> (r: Vec<u8>)
    ensures
        r@ == statx_image(kind, size),
        r@.len() == STATX_SIZE,
        r@.subrange(28, 30) == u16_le(mode_bits(kind) as u16),
        r@.subrange(40, 48) == u64_le(size),
{
    let mut out: Vec<u8> = Vec::new();
    push_zeros(&mut out, 28);
    let mode = mode_of(kind);
    push_le16(&mut out, mode as u16);
    push_zeros(&mut out, 10);
    push_le64(&mut out, size);
    push_zeros(&mut out, 208);
    proof {
        assert(out@ =~= statx_image(kind, size));
        assert(out@.subrange(28, 30) =~= u16_le(mode_bits(kind) as u16));
        assert(out@.subrange(40, 48) =~= u64_le(size));
    }
    out
}

} // verus!
