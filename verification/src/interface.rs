//! Network interface descriptions.
//!
//! The drivers themselves (message-bus hubs, serial links) belong to the
//! underlying stack and are outside this layer; what the layer keeps is the
//! description a route is registered with. The stack never tears an
//! interface down: once registered it lives for the rest of the process.

use vstd::prelude::*;

verus! {

/// The description of one network interface: where it attaches and with
/// what driver flags.
#[derive(Debug)]
pub struct CspInterface {
    /// The node address the interface answers for.
    pub address: u8,
    /// The remote endpoint the driver connects to.
    pub host: String,
    /// Driver flags, passed through unchanged.
    pub flags: u32,
}

impl CspInterface {
    /// Describes an interface backed by a message-bus hub at `host`.
    pub fn new_zmq(address: u8, host: &str, flags: u32) -> (r: CspInterface)
        ensures
            r.address == address,
            r.host@ == host@,
            r.flags == flags,
    {
        CspInterface { address, host: host.to_owned(), flags }
    }
}

} // verus!
