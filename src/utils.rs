//! Big-endian readers over byte slices.
use vstd::prelude::*;

verus! {

/// The unsigned 16-bit value stored big-endian at `s`.
pub open spec fn be_u16(b: Seq<u8>, s: int) -> u16 {
    ((b[s] as int) * 256 + (b[s + 1] as int)) as u16
}

/// The unsigned 32-bit value stored big-endian at `s`.
pub open spec fn be_u32(b: Seq<u8>, s: int) -> u32 {
    ((b[s] as int) * 0x1000000 + (b[s + 1] as int) * 0x10000 + (b[s + 2] as int) * 0x100 + (
    b[s + 3] as int)) as u32
}

/// Read four bytes at `s` as a big-endian `u32`.
pub fn slice_as_u32(bytes: &[u8], s: usize) -> (r: u32)
    requires
        s + 4 <= bytes@.len(),
    ensures
        r == be_u32(bytes@, s as int),
{
    let r = (bytes[s] as u32) * 0x1000000 + (bytes[s + 1] as u32) * 0x10000 + (bytes[s + 2] as u32)
        * 0x100 + (bytes[s + 3] as u32);
    r
}

/// Read four bytes at `s` as a big-endian two's-complement `i32`.
pub fn slice_as_i32(bytes: &[u8], s: usize) -> (r: i32)
    requires
        s + 4 <= bytes@.len(),
    ensures
        r == be_u32(bytes@, s as int) as i32,
{
    slice_as_u32(bytes, s) as i32
}

/// Read two bytes at `s` as a big-endian `u16`.
pub fn slice_as_u16(bytes: &[u8], s: usize) -> (r: u16)
    requires
        s + 2 <= bytes@.len(),
    ensures
        r == be_u16(bytes@, s as int),
{
    (bytes[s] as u16) * 256 + (bytes[s + 1] as u16)
}

} // verus!
