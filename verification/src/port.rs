//! Listening ports.

use vstd::prelude::*;

verus! {

/// The sentinel port value that stands for "any port" when binding a
/// listening socket. It is never a real port.
pub const ANY_PORT: u8 = 255;

/// A port a server socket can bind: either a concrete port number in
/// `0..=254`, or the "any port" sentinel.
#[derive(Debug, Clone, Copy, PartialEq, Eq, Structural)]
pub struct CspPort {
    port: u8,
}

impl CspPort {
    /// The raw value of the port.
    pub closed spec fn value(&self) -> u8 {
        self.port
    }

    /// Builds a concrete port. The sentinel value is reserved and refused.
    pub fn port(port: u8) -> (r: CspPort)
        requires
            port != ANY_PORT,
        ensures
            r.value() == port,
    {
        CspPort { port }
    }

    /// Builds the "any port" placeholder used only for binding.
    pub fn any_port() -> (r: CspPort)
        ensures
            r.value() == ANY_PORT,
    {
        CspPort { port: ANY_PORT }
    }

    /// The raw port number; the sentinel reads back as its reserved value.
    pub fn as_u8(&self) -> (r: u8)
        ensures
            r == self.value(),
    {
        self.port
    }
}

} // verus!
