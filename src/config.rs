//! Rules on the configured group addresses.

use vstd::prelude::*;

verus! {

/// An IPv4 address is a multicast group address when its first octet lies
/// in 224..=239 (the block 224.0.0.0/4).
pub open spec fn multicast_octets(octets: [u8; 4]) -> bool {
    224 <= octets[0] <= 239
}

/// Whether the address with these octets is a multicast group address.
pub fn is_multicast(octets: [u8; 4]) -> (r: bool)
    ensures
        r == multicast_octets(octets),
{
    let first = octets[0];
    224 <= first && first <= 239
}

} // verus!
