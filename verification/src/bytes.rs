use vstd::prelude::*;

verus! {

/// The little-endian 16-bit value of the two bytes of `b` starting at `at`.
pub open spec fn le_u16(b: Seq<u8>, at: int) -> u16 {
    (b[at] + b[at + 1] * 0x100) as u16
}

/// The little-endian 32-bit value of the four bytes of `b` starting at `at`.
pub open spec fn le_u32(b: Seq<u8>, at: int) -> u32 {
    (b[at] + b[at + 1] * 0x100 + b[at + 2] * 0x1_0000 + b[at + 3] * 0x100_0000) as u32
}

/// The little-endian 64-bit value of the eight bytes of `b` starting at `at`.
pub open spec fn le_u64(b: Seq<u8>, at: int) -> u64 {
    (le_u32(b, at) + le_u32(b, at + 4) * 0x1_0000_0000) as u64
}

/// Reads a little-endian 16-bit value.
pub fn read_u16(b: &[u8], at: usize) -> (v: u16)
    requires
        at + 2 <= b@.len(),
    ensures
        v == le_u16(b@, at as int),
{
    b[at] as u16 + (b[at + 1] as u16) * 0x100
}

/// Reads a little-endian 32-bit value.
pub fn read_u32(b: &[u8], at: usize) -> (v: u32)
    requires
        at + 4 <= b@.len(),
    ensures
        v == le_u32(b@, at as int),
{
    b[at] as u32 + (b[at + 1] as u32) * 0x100 + (b[at + 2] as u32) * 0x1_0000 + (b[at + 3] as u32)
        * 0x100_0000
}

/// Reads a little-endian 64-bit value.
pub fn read_u64(b: &[u8], at: usize) -> (v: u64)
    requires
        at + 8 <= b@.len(),
    ensures
        v == le_u64(b@, at as int),
{
    proof {
        assert(b.len() == b@.len());
    }
    let lo = read_u32(b, at);
    let hi = read_u32(b, at + 4);
    lo as u64 + (hi as u64) * 0x1_0000_0000
}

} // verus!
