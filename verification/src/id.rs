//! Addressing: priorities, endpoint addresses and packet identifiers.

use vstd::prelude::*;

verus! {

/// The service ports reserved for the built-in handlers (management,
/// ping, process status, memory-free query, reboot, buffer-free query,
/// uptime) occupy the contiguous low range `0..=SERVICE_PORT_MAX`.
pub const SERVICE_PORT_MAX: u8 = 6;

/// Queueing priority of a connection, passed through to the underlying
/// stack; lower wire values are more urgent.
#[derive(Debug, Copy, Clone, PartialEq, Eq, Structural)]
pub enum CspConnPriority {
    /// Least urgent.
    Low,
    /// Default.
    Normal,
    /// More urgent than normal traffic.
    High,
    /// Most urgent.
    Critical,
}

/// The wire value of each priority.
pub open spec fn priority_value(p: CspConnPriority) -> u8 {
    match p {
        CspConnPriority::Critical => 0,
        CspConnPriority::High => 1,
        CspConnPriority::Normal => 2,
        CspConnPriority::Low => 3,
    }
}

impl CspConnPriority {
    /// The wire value of this priority.
    pub fn as_u8(&self) -> (r: u8)
        ensures
            r == priority_value(*self),
    {
        match self {
            CspConnPriority::Critical => 0,
            CspConnPriority::High => 1,
            CspConnPriority::Normal => 2,
            CspConnPriority::Low => 3,
        }
    }

    /// The priority a wire value stands for; values outside the known range
    /// fall back to `Normal`.
    pub fn from_u8(value: u8) -> (r: CspConnPriority)
        ensures
            value == 0 ==> r == CspConnPriority::Critical,
            value == 1 ==> r == CspConnPriority::High,
            value == 2 ==> r == CspConnPriority::Normal,
            value == 3 ==> r == CspConnPriority::Low,
            value > 3 ==> r == CspConnPriority::Normal,
    {
        match value {
            0 => CspConnPriority::Critical,
            1 => CspConnPriority::High,
            3 => CspConnPriority::Low,
            _ => CspConnPriority::Normal,
        }
    }
}

/// One endpoint of a connection: a node address and a port on it.
#[derive(Debug, Clone, Copy, PartialEq, Eq, Structural)]
pub struct CspConnAddress {
    /// The node address.
    pub address: u16,
    /// The port on that node.
    pub port: u8,
}

/// Whether a port lies in the reserved service range.
pub open spec fn is_service_port_spec(port: u8) -> bool {
    port <= SERVICE_PORT_MAX
}

impl CspConnAddress {
    /// Builds the endpoint (`address`, `port`).
    pub fn new(address: u16, port: u8) -> (r: CspConnAddress)
        ensures
            r.address == address,
            r.port == port,
    {
        CspConnAddress { address, port }
    }

    /// Whether the endpoint's port is one of the reserved service ports.
    pub fn is_service_port(&self) -> (r: bool)
        ensures
            r == is_service_port_spec(self.port),
    {
        self.port <= SERVICE_PORT_MAX
    }
}

/// The identifier carried by every packet: priority, flags, and the source
/// and destination endpoints.
#[derive(Debug, Clone, Copy, PartialEq, Eq, Structural)]
pub struct CspId {
    /// Queueing priority the sender chose.
    pub priority: CspConnPriority,
    /// Protocol flags, passed through unchanged.
    pub flags: u8,
    /// Source node address.
    pub src: u16,
    /// Destination node address.
    pub dst: u16,
    /// Destination port.
    pub dport: u8,
    /// Source port.
    pub sport: u8,
}

impl CspId {
    /// Builds an identifier from its raw header fields; an unknown priority
    /// value falls back to `Normal`.
    pub fn from_raw(pri: u8, flags: u8, src: u16, dst: u16, dport: u8, sport: u8) -> (r: CspId)
        ensures
            pri <= 3 ==> priority_value(r.priority) == pri,
            pri > 3 ==> r.priority == CspConnPriority::Normal,
            r.flags == flags,
            r.src == src,
            r.dst == dst,
            r.dport == dport,
            r.sport == sport,
    {
        CspId {
            priority: CspConnPriority::from_u8(pri),
            flags,
            src,
            dst,
            dport,
            sport,
        }
    }
}

} // verus!
