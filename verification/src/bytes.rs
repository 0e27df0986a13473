//! Little-endian reads of fixed-width integers out of a byte buffer.
//!
//! Every firmware structure in this crate is decoded through these
//! bounds-checked primitives; nothing reads past the end of the buffer.

use vstd::prelude::*;

verus! {

/// The 16-bit little-endian value stored at offset `i` of `m`.
pub open spec fn u16_le(m: Seq<u8>, i: int) -> int {
    m[i] + m[i + 1] * 0x100
}

/// The 32-bit little-endian value stored at offset `i` of `m`.
pub open spec fn u32_le(m: Seq<u8>, i: int) -> int {
    m[i] + m[i + 1] * 0x100 + m[i + 2] * 0x1_0000 + m[i + 3] * 0x100_0000
}

/// Reads the 16-bit little-endian value at offset `i`.
pub fn read_u16_le(mem: &[u8], i: usize) -> (r: u16)
    requires
        i + 2 <= mem@.len(),
    ensures
        r == u16_le(mem@, i as int),
{
    let lo = mem[i] as u16;
    let hi = mem[i + 1] as u16;
    lo + hi * 0x100
}

/// Reads the 32-bit little-endian value at offset `i`.
pub fn read_u32_le(mem: &[u8], i: usize) -> (r: u32)
    requires
        i + 4 <= mem@.len(),
    ensures
        r == u32_le(mem@, i as int),
{
    let b0 = mem[i] as u32;
    let b1 = mem[i + 1] as u32;
    let b2 = mem[i + 2] as u32;
    let b3 = mem[i + 3] as u32;
    b0 + b1 * 0x100 + b2 * 0x1_0000 + b3 * 0x100_0000
}

} // verus!
