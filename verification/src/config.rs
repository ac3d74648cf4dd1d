//! Stack configuration and debug channel selection.

use vstd::prelude::*;

verus! {

/// One category of diagnostic output of the underlying stack. Each channel
/// is switched individually; enabling `Info` alone does not enable `Error`
/// or `Warn`.
#[derive(Debug, Copy, Clone, PartialEq, Eq, Structural)]
pub enum CspDebugChannel {
    /// Errors.
    Error,
    /// Warnings.
    Warn,
    /// Informational messages.
    Info,
    /// Buffer pool activity.
    Buffer,
    /// Packet routing.
    Packet,
    /// Transport protocol activity.
    Protocol,
    /// Locking activity.
    Lock,
}

/// The level number of a channel, `Error` being the lowest.
pub open spec fn channel_level(c: CspDebugChannel) -> int {
    match c {
        CspDebugChannel::Error => 0,
        CspDebugChannel::Warn => 1,
        CspDebugChannel::Info => 2,
        CspDebugChannel::Buffer => 3,
        CspDebugChannel::Packet => 4,
        CspDebugChannel::Protocol => 5,
        CspDebugChannel::Lock => 6,
    }
}

/// All channels in level order.
pub open spec fn all_channels() -> Seq<CspDebugChannel> {
    seq![
        CspDebugChannel::Error,
        CspDebugChannel::Warn,
        CspDebugChannel::Info,
        CspDebugChannel::Buffer,
        CspDebugChannel::Packet,
        CspDebugChannel::Protocol,
        CspDebugChannel::Lock,
    ]
}

impl CspDebugChannel {
    /// Every channel, in level order.
    pub fn all() -> (r: Vec<CspDebugChannel>)
        ensures
            r@ == all_channels(),
    {
        let mut v: Vec<CspDebugChannel> = Vec::new();
        v.push(CspDebugChannel::Error);
        v.push(CspDebugChannel::Warn);
        v.push(CspDebugChannel::Info);
        v.push(CspDebugChannel::Buffer);
        v.push(CspDebugChannel::Packet);
        v.push(CspDebugChannel::Protocol);
        v.push(CspDebugChannel::Lock);
        proof {
            assert(v@ =~= all_channels());
        }
        v
    }

    /// The channels up to and including this one's level, in level order.
    pub fn up_to(self) -> (r: Vec<CspDebugChannel>)
        ensures
            r@ == all_channels().take(channel_level(self) + 1),
    {
        let all = CspDebugChannel::all();
        let level: usize = match self {
            CspDebugChannel::Error => 0,
            CspDebugChannel::Warn => 1,
            CspDebugChannel::Info => 2,
            CspDebugChannel::Buffer => 3,
            CspDebugChannel::Packet => 4,
            CspDebugChannel::Protocol => 5,
            CspDebugChannel::Lock => 6,
        };
        let mut v: Vec<CspDebugChannel> = Vec::new();
        let mut i: usize = 0;
        while i <= level
            invariant
                i <= level + 1,
                level < all.len(),
                all@ == all_channels(),
                v@ == all_channels().take(i as int),
            decreases level - i + 1,
        {
            v.push(all[i]);
            proof {
                assert(v@ =~= all_channels().take(i + 1 as int));
            }
            i = i + 1;
        }
        v
    }

    /// Only the error channel.
    pub fn up_to_error() -> (r: Vec<CspDebugChannel>)
        ensures
            r@ == all_channels().take(1),
    {
        CspDebugChannel::up_to(CspDebugChannel::Error)
    }

    /// Errors and warnings.
    pub fn up_to_warn() -> (r: Vec<CspDebugChannel>)
        ensures
            r@ == all_channels().take(2),
    {
        CspDebugChannel::up_to(CspDebugChannel::Warn)
    }

    /// Errors, warnings and informational messages.
    pub fn up_to_info() -> (r: Vec<CspDebugChannel>)
        ensures
            r@ == all_channels().take(3),
    {
        CspDebugChannel::up_to(CspDebugChannel::Info)
    }
}

/// The one-time configuration of a stack instance: the node's own address,
/// descriptive strings, table and queue limits, and the buffer pool's shape.
#[derive(Debug)]
pub struct LibCspConfig {
    /// The node address of this instance.
    pub address: u8,
    /// Descriptive host name, reported by the management service.
    pub hostname: String,
    /// Descriptive model name.
    pub model: String,
    /// Descriptive revision string.
    pub revision: String,
    /// Size of the connection table.
    pub conn_max: u8,
    /// Packets queued per connection.
    pub conn_queue_length: u8,
    /// Length of the router's input queue.
    pub fifo_length: u8,
    /// Number of bindable ports.
    pub port_max_bind: u8,
    /// Window size of the reliable transport.
    pub rdp_max_window: u8,
    /// Number of buffers in the pool.
    pub buffers: u16,
    /// Payload bytes each buffer holds; the largest packet the layer sends.
    pub buffer_data_size: u16,
    /// Default socket options for new connections.
    pub conn_dfl_so: u32,
    /// Pending connections a listening socket may hold before new opens are
    /// refused.
    pub connection_backlog: usize,
}

/// Whether a configuration holds the defaults for a node at `address`.
pub open spec fn is_default_config(c: LibCspConfig, address: u8) -> bool {
    &&& c.address == address
    &&& c.hostname@ == "{hostname unspecified}"@
    &&& c.model@ == "{model unspecified}"@
    &&& c.revision@ == "{revision unspecified}"@
    &&& c.conn_max == 10
    &&& c.conn_queue_length == 10
    &&& c.fifo_length == 25
    &&& c.port_max_bind == 24
    &&& c.rdp_max_window == 20
    &&& c.buffers == 10
    &&& c.buffer_data_size == 256
    &&& c.conn_dfl_so == 0
    &&& c.connection_backlog == 10
}

impl LibCspConfig {
    /// The default configuration for a node at `address`.
    pub fn new(address: u8) -> (r: LibCspConfig)
        ensures
            is_default_config(r, address),
    {
        LibCspConfig {
            address,
            hostname: "{hostname unspecified}".to_string(),
            model: "{model unspecified}".to_string(),
            revision: "{revision unspecified}".to_string(),
            conn_max: 10,
            conn_queue_length: 10,
            fifo_length: 25,
            port_max_bind: 24,
            rdp_max_window: 20,
            buffers: 10,
            buffer_data_size: 256,
            conn_dfl_so: 0,
            connection_backlog: 10,
        }
    }

    /// Replaces the descriptive strings.
    pub fn details(self, hostname: String, model: String, revision: String) -> (r: LibCspConfig)
        ensures
            r == (LibCspConfig { hostname, model, revision, ..self }),
    {
        LibCspConfig { hostname, model, revision, ..self }
    }

    /// Replaces the connection table size.
    pub fn conn_max(self, conn_max: u8) -> (r: LibCspConfig)
        ensures
            r == (LibCspConfig { conn_max, ..self }),
    {
        LibCspConfig { conn_max, ..self }
    }

    /// Replaces the per-connection queue length.
    pub fn conn_queue_length(self, conn_queue_length: u8) -> (r: LibCspConfig)
        ensures
            r == (LibCspConfig { conn_queue_length, ..self }),
    {
        LibCspConfig { conn_queue_length, ..self }
    }

    /// Replaces the router queue length.
    pub fn fifo_length(self, fifo_length: u8) -> (r: LibCspConfig)
        ensures
            r == (LibCspConfig { fifo_length, ..self }),
    {
        LibCspConfig { fifo_length, ..self }
    }

    /// Replaces the number of bindable ports.
    pub fn port_max_bind(self, port_max_bind: u8) -> (r: LibCspConfig)
        ensures
            r == (LibCspConfig { port_max_bind, ..self }),
    {
        LibCspConfig { port_max_bind, ..self }
    }

    /// Replaces the reliable transport's window size.
    pub fn rdp_max_window(self, rdp_max_window: u8) -> (r: LibCspConfig)
        ensures
            r == (LibCspConfig { rdp_max_window, ..self }),
    {
        LibCspConfig { rdp_max_window, ..self }
    }

    /// Replaces the number of buffers in the pool.
    pub fn buffers(self, buffers: u16) -> (r: LibCspConfig)
        ensures
            r == (LibCspConfig { buffers, ..self }),
    {
        LibCspConfig { buffers, ..self }
    }

    /// Replaces the payload size of each buffer.
    pub fn buffer_data_size(self, buffer_data_size: u16) -> (r: LibCspConfig)
        ensures
            r == (LibCspConfig { buffer_data_size, ..self }),
    {
        LibCspConfig { buffer_data_size, ..self }
    }

    /// Replaces the default socket options.
    pub fn conn_dfl_so(self, conn_dfl_so: u32) -> (r: LibCspConfig)
        ensures
            r == (LibCspConfig { conn_dfl_so, ..self }),
    {
        LibCspConfig { conn_dfl_so, ..self }
    }
}

impl Default for LibCspConfig {
    /// The default configuration: a node at address one.
    fn default() -> (r: LibCspConfig)
        ensures
            is_default_config(r, 1),
    {
        LibCspConfig::new(1)
    }
}

} // verus!
