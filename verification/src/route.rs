//! Routing table entries.

use vstd::prelude::*;

verus! {

/// The via value that means "deliver directly, no intermediate hop".
pub const NO_VIA_ADDRESS: u8 = 255;

/// The netmask that a CIDR-style bit count stands for: the given number of
/// leading bits set.
pub open spec fn netmask_of_bits(netmask_bits: u8) -> u8
    recommends
        1 <= netmask_bits <= 8,
{
    (0xffu8 << ((8 - netmask_bits) as u8)) as u8
}

/// One routing table entry: a network prefix, the mask that delimits it, and
/// the address of the next hop (or none for direct delivery).
#[derive(Debug, Clone, Copy, PartialEq, Eq, Structural)]
pub struct Route {
    /// The network prefix.
    pub address: u8,
    /// The bit mask delimiting the prefix; all bits set matches one node.
    pub netmask: u8,
    /// The next-hop address, or `NO_VIA_ADDRESS` for direct delivery.
    pub via: u8,
}

impl Route {
    /// A route to the single node `address`: full netmask and no
    /// intermediate hop.
    pub fn new(address: u8) -> (r: Route)
        ensures
            r.address == address,
            r.netmask == 255,
            r.via == NO_VIA_ADDRESS,
    {
        Route { address, netmask: 255, via: NO_VIA_ADDRESS }
    }

    /// Replaces the netmask with the given mask, which must leave the
    /// prefix's bits intact.
    pub fn netmask(self, netmask: u8) -> (r: Route)
        requires
            netmask <= 8,
            self.address & !netmask == 0,
        ensures
            r == (Route { netmask, ..self }),
    {
        Route { netmask, ..self }
    }

    /// Replaces the netmask with a CIDR-style bit count, eight bits meaning
    /// the whole address; the prefix must fit the mask.
    pub fn netmask_bits(self, netmask_bits: u8) -> (r: Route)
        requires
            1 <= netmask_bits <= 8,
            self.address & netmask_of_bits(netmask_bits) == 0,
        ensures
            r == (Route { netmask: netmask_of_bits(netmask_bits), ..self }),
    {
        let num_bits: u8 = 8 - netmask_bits;
        let netmask: u8 = 0xff << num_bits;
        Route { netmask, ..self }
    }

    /// Replaces the next hop; the reserved "no via" value is refused.
    pub fn via(self, hop: u8) -> (r: Route)
        requires
            hop != NO_VIA_ADDRESS,
        ensures
            r == (Route { via: hop, ..self }),
    {
        Route { via: hop, ..self }
    }

    /// The catch-all route: prefix zero under an empty mask, no hop.
    pub fn default_address() -> (r: Route)
        ensures
            r.address == 0,
            r.netmask == 0,
            r.via == NO_VIA_ADDRESS,
    {
        proof {
            assert(0u8 & !0u8 == 0) by (bit_vector);
        }
        Route::new(0).netmask(0)
    }
}

} // verus!
