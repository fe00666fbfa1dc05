//! Conversion between host and network byte order, for a little-endian host.
use vstd::prelude::*;

verus! {

/// `x` with its two bytes exchanged.
pub open spec fn swap16(x: u16) -> u16 {
    ((x % 0x100) * 0x100 + x / 0x100) as u16
}

/// `x` with its four bytes in reverse order.
pub open spec fn swap32(x: u32) -> u32 {
    ((x % 0x100) * 0x100_0000 + ((x / 0x100) % 0x100) * 0x1_0000 + ((x / 0x1_0000) % 0x100) * 0x100
        + x / 0x100_0000) as u32
}

/// Host to network order for 16-bit values (a byte swap on a little-endian host).
pub fn host_to_net16(x: u16) -> (r: u16)
    ensures
        r == swap16(x),
{
    ((x % 0x100) * 0x100 + x / 0x100) as u16
}

/// Host to network order for 32-bit values (a byte swap on a little-endian host).
pub fn host_to_net32(x: u32) -> (r: u32)
    ensures
        r == swap32(x),
{
    ((x % 0x100) * 0x100_0000 + ((x / 0x100) % 0x100) * 0x1_0000 + ((x / 0x1_0000) % 0x100) * 0x100
        + x / 0x100_0000) as u32
}

/// Swapping the bytes twice gives the value back.
pub proof fn swap16_involutive(x: u16)
    ensures
        swap16(swap16(x)) == x,
{
    assert(swap16(swap16(x)) == x) by (bit_vector);
}

/// Swapping the bytes twice gives the value back.
pub proof fn swap32_involutive(x: u32)
    ensures
        swap32(swap32(x)) == x,
{
    assert(swap32(swap32(x)) == x) by (bit_vector);
}

} // verus!
