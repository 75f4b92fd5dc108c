//! Byte-level primitives shared by the record types: 8-byte alignment,
//! little-endian field access and two's-complement conversions.

use vstd::bytes::*;
use vstd::prelude::*;
use vstd::slice::*;

verus! {

/// Records are padded so that each one starts at a multiple of this many bytes.
pub const ALIGN_BYTES: usize = 8;

/// `n` rounded up to the next multiple of 8.
pub open spec fn align8(n: int) -> int {
    ((n + 7) / 8) * 8
}

/// Rounding up to a multiple of 8 yields a multiple of 8 that is at least `n`
/// and less than `n + 8`.
pub proof fn lemma_align8(n: int)
    requires
        n >= 0,
    ensures
        align8(n) % 8 == 0,
        n <= align8(n) < n + 8,
{
    vstd::arithmetic::div_mod::lemma_fundamental_div_mod(n + 7, 8);
    assert(align8(n) == (n + 7) - ((n + 7) % 8));
    assert(((n + 7) / 8) * 8 % 8 == 0) by {
        vstd::arithmetic::div_mod::lemma_mod_multiples_basic((n + 7) / 8, 8);
    }
}

/// The 16-bit little-endian value stored at offset `o`.
pub open spec fn le16_at(s: Seq<u8>, o: int) -> u16 {
    spec_u16_from_le_bytes(s.subrange(o, o + 2))
}

/// The 32-bit little-endian value stored at offset `o`.
pub open spec fn le32_at(s: Seq<u8>, o: int) -> u32 {
    spec_u32_from_le_bytes(s.subrange(o, o + 4))
}

/// The 64-bit little-endian value stored at offset `o`.
pub open spec fn le64_at(s: Seq<u8>, o: int) -> u64 {
    spec_u64_from_le_bytes(s.subrange(o, o + 8))
}

/// The signed value represented by `u` under two's complement.
pub open spec fn signed32(u: u32) -> int {
    if u < 0x8000_0000 {
        u as int
    } else {
        u as int - 0x1_0000_0000
    }
}

/// The signed value represented by `u` under two's complement.
pub open spec fn signed64(u: u64) -> int {
    if u < 0x8000_0000_0000_0000 {
        u as int
    } else {
        u as int - 0x1_0000_0000_0000_0000
    }
}

/// Reads the 16-bit little-endian value at offset `o`.
pub fn read_u16(s: &[u8], o: usize) -> (r: u16)
    requires
        o + 2 <= s@.len(),
    ensures
        r == le16_at(s@, o as int),
{
    let _len: usize = s.len();
    let sub: &[u8] = slice_subrange(s, o, o + 2);
    u16_from_le_bytes(sub)
}

/// Reads the 32-bit little-endian value at offset `o`.
pub fn read_u32(s: &[u8], o: usize) -> (r: u32)
    requires
        o + 4 <= s@.len(),
    ensures
        r == le32_at(s@, o as int),
{
    let _len: usize = s.len();
    let sub: &[u8] = slice_subrange(s, o, o + 4);
    u32_from_le_bytes(sub)
}

/// Reads the 64-bit little-endian value at offset `o`.
pub fn read_u64(s: &[u8], o: usize) -> (r: u64)
    requires
        o + 8 <= s@.len(),
    ensures
        r == le64_at(s@, o as int),
{
    let _len: usize = s.len();
    let sub: &[u8] = slice_subrange(s, o, o + 8);
    u64_from_le_bytes(sub)
}

/// Reinterprets `u` as a signed 32-bit value (two's complement).
pub fn u32_to_i32(u: u32) -> (r: i32)
    ensures
        r as int == signed32(u),
{
    if u < 0x8000_0000 {
        u as i32
    } else {
        let d: u32 = u - 0x8000_0000;
        if d == 0 {
            i32::MIN
        } else {
            -((0x8000_0000u32 - d) as i32)
        }
    }
}

/// Reinterprets `u` as a signed 64-bit value (two's complement).
pub fn u64_to_i64(u: u64) -> (r: i64)
    ensures
        r as int == signed64(u),
{
    if u < 0x8000_0000_0000_0000 {
        u as i64
    } else {
        let d: u64 = u - 0x8000_0000_0000_0000;
        if d == 0 {
            i64::MIN
        } else {
            -((0x8000_0000_0000_0000u64 - d) as i64)
        }
    }
}

/// Reinterprets `x` as an unsigned 32-bit value (two's complement).
pub fn i32_to_u32(x: i32) -> (r: u32)
    ensures
        signed32(r) == x as int,
{
    if x >= 0 {
        x as u32
    } else {
        let p: u32 = (-(x + 1)) as u32;
        0xFFFF_FFFFu32 - p
    }
}

/// Reinterprets `x` as an unsigned 64-bit value (two's complement).
pub fn i64_to_u64(x: i64) -> (r: u64)
    ensures
        signed64(r) == x as int,
{
    if x >= 0 {
        x as u64
    } else {
        let p: u64 = (-(x + 1)) as u64;
        0xFFFF_FFFF_FFFF_FFFFu64 - p
    }
}

/// Appends all of `s` to `v`.
pub fn append_bytes(v: &mut Vec<u8>, s: &[u8])
    ensures
        final(v)@ == old(v)@ + s@,
{
    v.extend_from_slice(s);
    proof {
        assert(v@ =~= old(v)@ + s@);
    }
}

/// Appends the two little-endian bytes of `x` to `v`.
pub fn push_u16_le(v: &mut Vec<u8>, x: u16)
    ensures
        final(v)@ == old(v)@ + spec_u16_to_le_bytes(x),
{
    let bytes = u16_to_le_bytes(x);
    append_bytes(v, bytes.as_slice());
}

/// Appends the four little-endian bytes of `x` to `v`.
pub fn push_u32_le(v: &mut Vec<u8>, x: u32)
    ensures
        final(v)@ == old(v)@ + spec_u32_to_le_bytes(x),
{
    let bytes = u32_to_le_bytes(x);
    append_bytes(v, bytes.as_slice());
}

/// Appends the eight little-endian bytes of `x` to `v`.
pub fn push_u64_le(v: &mut Vec<u8>, x: u64)
    ensures
        final(v)@ == old(v)@ + spec_u64_to_le_bytes(x),
{
    let bytes = u64_to_le_bytes(x);
    append_bytes(v, bytes.as_slice());
}

} // verus!
