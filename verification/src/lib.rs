//! A safe, verified client/server abstraction layer over a lightweight
//! packet-switched protocol stack for inter-node communication.
//!
//! The layer turns a buffer-oriented packet fabric into blocking client and
//! server primitives with byte-stream semantics on top of datagram-like
//! packets. The fabric itself — buffer pool, port table, circuit
//! multiplexing — is held as explicit state in [`LibCspInstance`] and every
//! operation that touches it takes the instance as an argument, so all of its
//! behaviour is captured in contracts.

mod client;
mod config;
mod connection;
mod errors;
mod id;
mod instance;
mod interface;
mod port;
mod route;
mod socket;
mod stream;

pub use config::{
    all_channels, channel_level, is_default_config, CspDebugChannel, LibCspConfig,
};
pub use errors::{kind_of_code, description_of, result_from_i32, CspError, CspErrorKind};
pub use client::{CspClient, CspClientConnection, CspClientConnectionWriter};
pub use socket::{
    dispatch_of, handler_index_from, lemma_service_port_isolation, CspPortHandler, CspSocket,
    CspSocketBuilder, PortDispatch, ACCEPT_POLL_MS, DEFAULT_SERVICE_TIMEOUT_MS,
};
pub use connection::{
    packets_with_id, queue_bytes, CspConnection, CspConnectionPacketIter,
    CspConnectionPacketReader, CspConnectionWriter,
};
pub use instance::{
    admin_eq, circuit_ids_eq, circuit_send_id, payloads_of, queues_eq_except,
    same_fabric_except_circuit, same_fabric_except_pool, sockets_eq, CspPacket, LibCspBuilder,
    LibCspInstance, EPHEMERAL_PORT_FIRST, EPHEMERAL_PORT_LAST,
};
pub use interface::CspInterface;
pub use id::{
    is_service_port_spec, priority_value, CspConnAddress, CspConnPriority, CspId,
    SERVICE_PORT_MAX,
};
pub use port::{CspPort, ANY_PORT};
pub use route::{netmask_of_bits, Route, NO_VIA_ADDRESS};
pub use stream::{
    chunk_rest, flushed_packets, full_chunks, lemma_chunks_reassemble, lemma_chunks_shape,
    lemma_flushed_packets, lemma_reader_outputs, lemma_stream_accounting,
    lemma_stream_round_trip, lemma_stream_step, lemma_sum_nonneg, min_of, reader_outputs,
    stream_packets,
    stream_pending, sum_of,
};
