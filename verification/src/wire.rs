//! Link-layer addresses and big-endian field extraction.
//!
//! A 6-byte Ethernet address is carried as its 48-bit big-endian value in
//! a `u64`, which also serves as the registry key.

use vstd::prelude::*;

verus! {

/// Largest value a 48-bit link-layer address can take.
pub const MAC_MAX: u64 = 0xFFFF_FFFF_FFFF;

/// The 48-bit big-endian value of the 6 bytes starting at `off`.
pub open spec fn spec_mac_at(b: Seq<u8>, off: int) -> u64 {
    (((b[off] as u64) * 0x100_0000_0000) + ((b[off + 1] as u64) * 0x1_0000_0000) + ((b[off
        + 2] as u64) * 0x100_0000) + ((b[off + 3] as u64) * 0x1_0000) + ((b[off + 4] as u64)
        * 0x100) + (b[off + 5] as u64)) as u64
}

/// The individual/group bit of an address: the least significant bit of
/// the first byte on the wire, so bit 40 of the 48-bit value. Group
/// (multicast) destinations, the broadcast address included, have it set.
pub open spec fn spec_mac_is_multicast(mac: u64) -> bool {
    (mac / 0x100_0000_0000) % 2 == 1
}

/// Reports whether `mac` is a multicast or broadcast address.
pub fn mac_is_multicast(mac: u64) -> (r: bool)
    ensures
        r == spec_mac_is_multicast(mac),
{
    (mac / 0x100_0000_0000) % 2 == 1
}

/// Reads the 6-byte address starting at `off`.
pub fn mac_at(b: &Vec<u8>, off: usize) -> (r: u64)
    requires
        off + 6 <= b@.len(),
    ensures
        r == spec_mac_at(b@, off as int),
        r <= MAC_MAX,
{
    let n: usize = b.len();
    assert(off + 6 <= n);
    (b[off] as u64) * 0x100_0000_0000 + (b[off + 1] as u64) * 0x1_0000_0000 + (b[off
        + 2] as u64) * 0x100_0000 + (b[off + 3] as u64) * 0x1_0000 + (b[off + 4] as u64) * 0x100
        + (b[off + 5] as u64)
}

} // verus!
