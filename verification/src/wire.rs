//! Little-endian integer fields, read off a byte cursor and written into a body.

use vstd::prelude::*;

verus! {

/// Why a read stopped: the body ended before the field it was reading.
#[derive(Clone, Copy, Debug, PartialEq, Eq)]
pub enum WireError {
    UnexpectedEof,
}

/// The `u32` whose little-endian bytes start at `at`.
pub open spec fn le_u32(b: Seq<u8>, at: int) -> u32 {
    (b[at] as int + b[at + 1] as int * 0x100 + b[at + 2] as int * 0x1_0000 + b[at + 3] as int
        * 0x100_0000) as u32
}

/// The `u64` whose little-endian bytes start at `at`.
pub open spec fn le_u64(b: Seq<u8>, at: int) -> u64 {
    (le_u32(b, at) as int + le_u32(b, at + 4) as int * 0x1_0000_0000) as u64
}

/// The four little-endian bytes of `x`.
pub open spec fn u32_le_bytes(x: u32) -> Seq<u8> {
    seq![
        (x % 0x100) as u8,
        ((x / 0x100) % 0x100) as u8,
        ((x / 0x1_0000) % 0x100) as u8,
        (x / 0x100_0000) as u8,
    ]
}

/// Reading back the bytes of `x` gives `x`.
pub proof fn lemma_u32_le_round_trip(x: u32)
    ensures
        u32_le_bytes(x).len() == 4,
        le_u32(u32_le_bytes(x), 0) == x,
{
    let b = u32_le_bytes(x);
    assert(x == x % 0x100 + ((x / 0x100) % 0x100) * 0x100 + ((x / 0x1_0000) % 0x100) * 0x1_0000
        + (x / 0x100_0000) * 0x100_0000) by (bit_vector);
    assert((x / 0x100_0000) < 0x100) by (bit_vector);
}

/// The `u32` at `pos`.
pub fn get_u32_le(data: &[u8], pos: usize) -> (v: u32)
    requires
        pos + 4 <= data@.len(),
    ensures
        v == le_u32(data@, pos as int),
{
    let b0 = data[pos] as u32;
    let b1 = data[pos + 1] as u32;
    let b2 = data[pos + 2] as u32;
    let b3 = data[pos + 3] as u32;
    b0 + b1 * 0x100 + b2 * 0x1_0000 + b3 * 0x100_0000
}

/// The `u64` at `pos`.
pub fn get_u64_le(data: &[u8], pos: usize) -> (v: u64)
    requires
        pos + 8 <= data@.len(),
    ensures
        v == le_u64(data@, pos as int),
{
    let _len = data.len();
    let lo = get_u32_le(data, pos) as u64;
    let hi = get_u32_le(data, pos + 4) as u64;
    lo + hi * 0x1_0000_0000
}

/// Append the four little-endian bytes of `x`.
pub fn push_u32_le(out: &mut Vec<u8>, x: u32)
    ensures
        final(out)@ == old(out)@ + u32_le_bytes(x),
{
    out.push((x % 0x100) as u8);
    out.push(((x / 0x100) % 0x100) as u8);
    out.push(((x / 0x1_0000) % 0x100) as u8);
    out.push((x / 0x100_0000) as u8);
    assert(final(out)@ =~= old(out)@ + u32_le_bytes(x));
}

} // verus!
