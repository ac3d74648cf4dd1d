//! The client side: liveness probes and active opens.

use vstd::prelude::*;
use crate::config::LibCspConfig;
use crate::errors::{CspError, CspErrorKind};
use crate::id::{CspConnAddress, CspConnPriority, CspId};
use crate::instance::{
    circuit_send_id, same_fabric_except_circuit, LibCspInstance, EPHEMERAL_PORT_FIRST,
    EPHEMERAL_PORT_LAST,
};
use crate::connection::{packets_with_id, PacketStreamBuf};
use crate::stream::{chunk_rest, full_chunks};

verus! {

/// A stateless helper for opening connections and probing peers; it only
/// remembers the buffer size of the instance it was made for.
#[derive(Debug)]
pub struct CspClient {
    pub(crate) max_buffer_size: u16,
}

impl CspClient {
    /// The largest payload one packet can carry.
    pub closed spec fn max_size_spec(&self) -> u16 {
        self.max_buffer_size
    }

    /// A client for an instance with the given configuration.
    pub fn new(conf: &LibCspConfig) -> (r: CspClient)
        ensures
            r.max_size_spec() == conf.buffer_data_size,
    {
        CspClient { max_buffer_size: conf.buffer_data_size }
    }

    /// Probes `address` with a one-second timeout and a small fixed probe,
    /// returning the round-trip time in milliseconds.
    pub fn ping(&self, net: &LibCspInstance, address: u16) -> (r: Result<u32, CspError>)
        requires
            net.wf(),
        ensures
            r is Ok <==> address == net.local_address() && net.pool_free() > 0,
            r is Ok ==> r->Ok_0 == 0,
            address != net.local_address() ==> r is Err && r->Err_0.kind == CspErrorKind::Timedout,
            address == net.local_address() && net.pool_free() == 0 ==> r is Err && r->Err_0.kind
                == CspErrorKind::NoBuffersAvailable,
    {
        self.ping_timeout_size(net, address, 1000, 100)
    }

    /// Probes `address`: a probe packet of `size` bytes goes out and its
    /// echo is awaited for up to the timeout. In this in-process fabric
    /// only the local node answers, instantly, so the result is zero
    /// milliseconds when `address` is the local node and the pool can lend
    /// a buffer for the probe; any other address times out.
    pub fn ping_timeout_size(
        &self,
        net: &LibCspInstance,
        address: u16,
        timeout_ms: u32,
        size: u8,
    ) -> (r: Result<u32, CspError>)
        requires
            net.wf(),
        ensures
            r is Ok <==> address == net.local_address() && net.pool_free() > 0,
            r is Ok ==> r->Ok_0 == 0,
            address != net.local_address() ==> r is Err && r->Err_0.kind == CspErrorKind::Timedout,
            address == net.local_address() && net.pool_free() == 0 ==> r is Err && r->Err_0.kind
                == CspErrorKind::NoBuffersAvailable,
    {
        let _ = timeout_ms;
        let _ = size;
        if address != net.config().address as u16 {
            return Err(CspError::new(CspErrorKind::Timedout, "ping timed out".to_string()));
        }
        if net.buffers_free() == 0 {
            return Err(
                CspError::new(
                    CspErrorKind::NoBuffersAvailable,
                    "no buffers left in the buffer pool".to_string(),
                ),
            );
        }
        Ok(0)
    }

    /// Opens a connection to `addr` with the given priority. Fails with
    /// `ConnectFailed` when the open yields no circuit: nothing listens on
    /// the port, the listener's backlog is full, or the address is not
    /// reachable from this fabric.
    pub fn connect(
        &self,
        net: &mut LibCspInstance,
        addr: CspConnAddress,
        priority: CspConnPriority,
        timeout_ms: u32,
    ) -> (r: Result<CspClientConnection, CspError>)
        requires
            old(net).wf(),
            self.max_size_spec() == old(net).max_payload(),
        ensures
            final(net).wf(),
            r is Ok <==> old(net).can_connect(addr),
            r is Err ==> *final(net) == *old(net) && r->Err_0.kind == CspErrorKind::ConnectFailed,
            r is Ok ==> {
                &&& r->Ok_0.attached(*final(net))
                &&& r->Ok_0.cid_spec() == old(net).circuit_count()
                &&& final(net).circuit_count() == old(net).circuit_count() + 1
                &&& final(net).circuit_initiator(old(net).circuit_count()) == (CspConnAddress {
                    address: old(net).local_address(),
                    port: old(net).next_eph(),
                })
                &&& final(net).circuit_target(old(net).circuit_count()) == addr
                &&& final(net).circuit_priority(old(net).circuit_count()) == priority
                &&& final(net).inbound(old(net).circuit_count()) == Seq::<(CspId, Seq<u8>)>::empty()
                &&& final(net).outbound(old(net).circuit_count()) == Seq::<(
                    CspId,
                    Seq<u8>,
                )>::empty()
                &&& final(net).initiator_open(old(net).circuit_count())
                &&& final(net).acceptor_open(old(net).circuit_count())
                &&& forall|j: int|
                    0 <= j < old(net).circuit_count() ==> #[trigger] final(net).inbound(j) == old(net).inbound(j)
                &&& forall|j: int|
                    0 <= j < old(net).circuit_count() ==> #[trigger] final(net).outbound(j) == old(net).outbound(j)
                &&& forall|j: int|
                    0 <= j < old(net).circuit_count() ==> #[trigger] final(net).circuit_initiator(
                        j,
                    ) == old(net).circuit_initiator(j)
                &&& forall|j: int|
                    0 <= j < old(net).circuit_count() ==> #[trigger] final(net).circuit_target(j)
                        == old(net).circuit_target(j)
                &&& forall|j: int|
                    0 <= j < old(net).circuit_count() ==> #[trigger] final(net).circuit_priority(
                        j,
                    ) == old(net).circuit_priority(j)
                &&& forall|j: int|
                    0 <= j < old(net).circuit_count() ==> #[trigger] final(net).initiator_open(j)
                        == old(net).initiator_open(j)
                &&& forall|j: int|
                    0 <= j < old(net).circuit_count() ==> #[trigger] final(net).acceptor_open(j)
                        == old(net).acceptor_open(j)
                &&& final(net).socket_pending(old(net).listener_sid(addr.port)) == old(net).socket_pending(old(net).listener_sid(addr.port)).push(r->Ok_0.cid_spec() as usize)
                &&& final(net).socket_count() == old(net).socket_count()
                &&& forall|s: int|
                    0 <= s < old(net).socket_count() && s != old(net).listener_sid(addr.port)
                        ==> #[trigger] final(net).socket_pending(s) == old(net).socket_pending(s)
                &&& forall|s: int|
                    0 <= s < old(net).socket_count() ==> #[trigger] final(net).socket_open(s)
                        == old(net).socket_open(s)
                &&& forall|s: int|
                    0 <= s < old(net).socket_count() ==> #[trigger] final(net).socket_port(s)
                        == old(net).socket_port(s)
                &&& forall|p: u8| #[trigger] final(net).port_taken(p) == old(net).port_taken(p)
                &&& forall|p: u8| #[trigger]
                    final(net).listener_sid(p) == old(net).listener_sid(p)
                &&& final(net).cfg() == old(net).cfg()
                &&& final(net).pool_free() == old(net).pool_free()
                &&& final(net).next_eph() == (if old(net).next_eph() >= EPHEMERAL_PORT_LAST {
                    EPHEMERAL_PORT_FIRST
                } else {
                    (old(net).next_eph() + 1) as u8
                })
            },
    {
        let _ = timeout_ms;
        match net.connect_circuit(addr, priority) {
            Ok(cid) => Ok(CspClientConnection { cid, max_buffer_size: self.max_buffer_size }),
            Err(e) => Err(e),
        }
    }
}

impl LibCspInstance {
    /// A client for this instance.
    pub fn client(&self) -> (r: CspClient)
        ensures
            r.max_size_spec() == self.max_payload(),
    {
        CspClient { max_buffer_size: self.config().buffer_data_size }
    }
}

/// The initiating side of one circuit: the handle a client gets from an
/// active open. It sends packets to the acceptor; it must be closed
/// (directly or through the writer that consumed it) to give its circuit
/// resources back.
#[derive(Debug)]
pub struct CspClientConnection {
    pub(crate) cid: usize,
    pub(crate) max_buffer_size: u16,
}

impl CspClientConnection {
    /// The circuit this handle stands for.
    pub closed spec fn cid_spec(&self) -> int {
        self.cid as int
    }

    /// The largest payload one packet can carry here.
    pub closed spec fn max_size_spec(&self) -> u16 {
        self.max_buffer_size
    }

    /// Whether this handle belongs to a circuit of `net`.
    pub open spec fn attached(&self, net: LibCspInstance) -> bool {
        &&& 0 <= self.cid_spec() < net.circuit_count()
        &&& self.max_size_spec() == net.max_payload()
    }

    /// Sends `data` as one packet to the peer. Fails with `Inval` when the
    /// payload is longer than the buffer size, with `NoBuffersAvailable`
    /// when the pool has no free buffer; otherwise the packet is queued
    /// byte-faithfully toward the acceptor.
    pub fn send_packet(&self, net: &mut LibCspInstance, timeout_ms: u32, data: &[u8]) -> (r: Result<
        (),
        CspError,
    >)
        requires
            old(net).wf(),
            self.attached(*old(net)),
        ensures
            final(net).wf(),
            self.attached(*final(net)),
            r is Ok <==> data@.len() <= old(net).max_payload() && old(net).pool_free() > 0,
            data@.len() > old(net).max_payload() ==> r is Err && r->Err_0.kind
                == CspErrorKind::Inval && *final(net) == *old(net),
            data@.len() <= old(net).max_payload() && old(net).pool_free() == 0 ==> r is Err
                && r->Err_0.kind == CspErrorKind::NoBuffersAvailable && *final(net) == *old(net),
            r is Ok ==> {
                &&& final(net).inbound(self.cid_spec()) == old(net).inbound(self.cid_spec()).push(
                    (circuit_send_id(*old(net), self.cid_spec(), true), data@),
                )
                &&& final(net).outbound(self.cid_spec()) == old(net).outbound(self.cid_spec())
                &&& final(net).pool_free() == old(net).pool_free() - 1
                &&& same_fabric_except_circuit(*old(net), *final(net), self.cid_spec())
                &&& final(net).initiator_open(self.cid_spec()) == old(net).initiator_open(
                    self.cid_spec(),
                )
                &&& final(net).acceptor_open(self.cid_spec()) == old(net).acceptor_open(
                    self.cid_spec(),
                )
            },
    {
        let _ = timeout_ms;
        net.send_on_circuit(self.cid, true, data)
    }

    /// Builds a packet in place: `f` is handed a zeroed buffer of the
    /// payload size and returns it with the number of bytes it filled; the
    /// packet carries exactly that prefix. Fails with `NoBuffersAvailable`
    /// before `f` runs when the pool is empty, and with `Inval` when the
    /// reported length exceeds the buffer size or the returned buffer.
    pub fn send_packet_with<F: FnOnce(Vec<u8>) -> (Vec<u8>, usize)>(
        &self,
        net: &mut LibCspInstance,
        timeout_ms: u32,
        f: F,
    ) -> (r: Result<(), CspError>)
        requires
            old(net).wf(),
            self.attached(*old(net)),
            forall|b: Vec<u8>|
                b@.len() == old(net).max_payload() as int ==> #[trigger] call_requires(f, (b,)),
        ensures
            final(net).wf(),
            self.attached(*final(net)),
            old(net).pool_free() == 0 ==> r is Err && r->Err_0.kind
                == CspErrorKind::NoBuffersAvailable,
            old(net).pool_free() > 0 ==> r is Ok || (r is Err && r->Err_0.kind
                == CspErrorKind::Inval),
            r is Err ==> *final(net) == *old(net) && (r->Err_0.kind
                == CspErrorKind::NoBuffersAvailable || r->Err_0.kind == CspErrorKind::Inval),
            r is Err && r->Err_0.kind == CspErrorKind::Inval ==> exists|
                b: Vec<u8>,
                out: (Vec<u8>, usize),
            |
                #[trigger] call_ensures(f, (b,), out) && (out.1 > old(net).max_payload()
                    || out.1 > out.0@.len()),
            r is Ok ==> {
                &&& exists|b: Vec<u8>, out: (Vec<u8>, usize)|
                    {
                        &&& #[trigger] call_ensures(f, (b,), out)
                        &&& out.1 <= old(net).max_payload()
                        &&& out.1 <= out.0@.len()
                        &&& final(net).inbound(self.cid_spec()) == old(net).inbound(
                            self.cid_spec(),
                        ).push(
                            (
                                circuit_send_id(*old(net), self.cid_spec(), true),
                                out.0@.take(out.1 as int),
                            ),
                        )
                    }
                &&& final(net).outbound(self.cid_spec()) == old(net).outbound(self.cid_spec())
                &&& final(net).pool_free() == old(net).pool_free() - 1
                &&& same_fabric_except_circuit(*old(net), *final(net), self.cid_spec())
                &&& final(net).initiator_open(self.cid_spec()) == old(net).initiator_open(
                    self.cid_spec(),
                )
                &&& final(net).acceptor_open(self.cid_spec()) == old(net).acceptor_open(
                    self.cid_spec(),
                )
            },
    {
        let _ = timeout_ms;
        if net.buffers_free() == 0 {
            return Err(
                CspError::new(
                    CspErrorKind::NoBuffersAvailable,
                    "no buffers left in the buffer pool".to_string(),
                ),
            );
        }
        let size = net.config().buffer_data_size as usize;
        let buffer: Vec<u8> = vec![0u8; size];
        let ghost b0 = buffer;
        let ret = f(buffer);
        let ghost ret0 = ret;
        let (mut data, length) = ret;
        if length > size || length > data.len() {
            return Err(
                CspError::new(
                    CspErrorKind::Inval,
                    "returned length exceeds the maximum buffer size".to_string(),
                ),
            );
        }
        data.truncate(length);
        net.send_on_circuit(self.cid, true, data.as_slice())
    }

    /// Hands the connection to a buffered byte-stream writer toward the
    /// acceptor.
    pub fn into_writer(self) -> (r: CspClientConnectionWriter)
        ensures
            r.conn_spec() == self,
            r.pending() == Seq::<u8>::empty(),
            r.linked(),
    {
        CspClientConnectionWriter { core: PacketStreamBuf::new_stream_buf(self.cid, true), conn: self }
    }

    /// Closes this side of the circuit: packets queued toward this side
    /// return to the pool. Consuming the handle makes a second close
    /// impossible.
    pub fn close(self, net: &mut LibCspInstance)
        requires
            old(net).wf(),
            self.attached(*old(net)),
        ensures
            final(net).wf(),
            final(net).outbound(self.cid_spec()) == Seq::<(CspId, Seq<u8>)>::empty(),
            !final(net).initiator_open(self.cid_spec()),
            final(net).pool_free() == crate::stream::min_of(
                old(net).pool_free() + old(net).outbound(self.cid_spec()).len(),
                old(net).pool_size() as int,
            ),
            final(net).inbound(self.cid_spec()) == old(net).inbound(self.cid_spec()),
            final(net).acceptor_open(self.cid_spec()) == old(net).acceptor_open(self.cid_spec()),
            same_fabric_except_circuit(*old(net), *final(net), self.cid_spec()),
    {
        net.close_circuit_side(self.cid, false);
    }
}

/// A buffered byte-stream writer toward the acceptor of a client
/// connection. Bytes accumulate up to the packet payload size and go out
/// as full packets; `flush` sends a final short packet. It owns the
/// connection; `finish` hands it back after a last best-effort flush.
#[derive(Debug)]
pub struct CspClientConnectionWriter {
    pub(crate) conn: CspClientConnection,
    pub(crate) core: PacketStreamBuf,
}

impl CspClientConnectionWriter {
    /// The connection the writer owns.
    pub closed spec fn conn_spec(&self) -> CspClientConnection {
        self.conn
    }

    /// The bytes accepted but not yet sent.
    pub closed spec fn pending(&self) -> Seq<u8> {
        self.core.pending()
    }

    /// The buffer writes to the same circuit the connection was opened on.
    pub closed spec fn linked(&self) -> bool {
        &&& self.core.cid_spec() == self.conn_spec().cid_spec()
        &&& self.core.dir_spec()
    }

    /// Internal consistency: the handle is attached and the buffer fits a
    /// packet.
    pub open spec fn wf_writer(&self, net: LibCspInstance) -> bool {
        &&& self.linked()
        &&& self.conn_spec().attached(net)
        &&& self.pending().len() <= net.max_payload()
    }

    /// Accepts all of `data` into the stream: full packets of exactly the
    /// payload size go out as the buffer fills, the remainder stays
    /// buffered. A zero-length write is a no-op. When the pool runs out
    /// mid-way the call fails with
    /// `NoBuffersAvailable`; the packets already sent are on the wire and
    /// the first unsendable packet stays buffered.
    pub fn write(&mut self, net: &mut LibCspInstance, data: &[u8]) -> (r: Result<usize, CspError>)
        requires
            old(net).wf(),
            old(self).wf_writer(*old(net)),
        ensures
            final(net).wf(),
            final(self).wf_writer(*final(net)),
            final(self).conn_spec() == old(self).conn_spec(),
            final(net).outbound(old(self).conn_spec().cid_spec()) == old(net).outbound(
                old(self).conn_spec().cid_spec(),
            ),
            same_fabric_except_circuit(*old(net), *final(net), old(self).conn_spec().cid_spec()),
            final(net).initiator_open(old(self).conn_spec().cid_spec()) == old(net).initiator_open(old(self).conn_spec().cid_spec()),
            final(net).acceptor_open(old(self).conn_spec().cid_spec()) == old(net).acceptor_open(
                old(self).conn_spec().cid_spec(),
            ),
            data@.len() == 0 ==> r is Ok && r->Ok_0 == 0 && *final(net) == *old(net)
                && final(self).pending() == old(self).pending(),
            r is Ok <==> data@.len() == 0 || full_chunks(
                old(self).pending() + data@,
                old(net).max_payload() as nat,
            ).len() <= old(net).pool_free(),
            data@.len() > 0 && r is Ok ==> {
                &&& r->Ok_0 == data@.len()
                &&& final(self).pending() == chunk_rest(
                    old(self).pending() + data@,
                    old(net).max_payload() as nat,
                )
                &&& final(net).inbound(old(self).conn_spec().cid_spec()) == old(net).inbound(
                    old(self).conn_spec().cid_spec(),
                ) + packets_with_id(
                    circuit_send_id(*old(net), old(self).conn_spec().cid_spec(), true),
                    full_chunks(old(self).pending() + data@, old(net).max_payload() as nat),
                )
                &&& final(net).pool_free() == old(net).pool_free() - full_chunks(
                    old(self).pending() + data@,
                    old(net).max_payload() as nat,
                ).len()
            },
            r is Err ==> {
                &&& r->Err_0.kind == CspErrorKind::NoBuffersAvailable
                &&& final(net).pool_free() == 0
                &&& final(net).inbound(old(self).conn_spec().cid_spec()) == old(net).inbound(
                    old(self).conn_spec().cid_spec(),
                ) + packets_with_id(
                    circuit_send_id(*old(net), old(self).conn_spec().cid_spec(), true),
                    full_chunks(old(self).pending() + data@, old(net).max_payload() as nat).take(
                        old(net).pool_free() as int,
                    ),
                )
            },
    {
        self.core.write(net, data)
    }

    /// Sends whatever is buffered as one final, possibly short, packet; a
    /// no-op when nothing is buffered.
    pub fn flush(&mut self, net: &mut LibCspInstance) -> (r: Result<(), CspError>)
        requires
            old(net).wf(),
            old(self).wf_writer(*old(net)),
        ensures
            final(net).wf(),
            final(self).wf_writer(*final(net)),
            final(self).conn_spec() == old(self).conn_spec(),
            final(net).outbound(old(self).conn_spec().cid_spec()) == old(net).outbound(
                old(self).conn_spec().cid_spec(),
            ),
            same_fabric_except_circuit(*old(net), *final(net), old(self).conn_spec().cid_spec()),
            final(net).initiator_open(old(self).conn_spec().cid_spec()) == old(net).initiator_open(old(self).conn_spec().cid_spec()),
            final(net).acceptor_open(old(self).conn_spec().cid_spec()) == old(net).acceptor_open(
                old(self).conn_spec().cid_spec(),
            ),
            r is Ok <==> old(self).pending().len() == 0 || old(net).pool_free() > 0,
            old(self).pending().len() == 0 ==> r is Ok && *final(net) == *old(net) && final(self).pending() == old(self).pending(),
            old(self).pending().len() > 0 && old(net).pool_free() > 0 ==> {
                &&& final(self).pending() == Seq::<u8>::empty()
                &&& final(net).inbound(old(self).conn_spec().cid_spec()) == old(net).inbound(
                    old(self).conn_spec().cid_spec(),
                ).push(
                    (
                        circuit_send_id(*old(net), old(self).conn_spec().cid_spec(), true),
                        old(self).pending(),
                    ),
                )
                &&& final(net).pool_free() == old(net).pool_free() - 1
            },
            r is Err ==> r->Err_0.kind == CspErrorKind::NoBuffersAvailable && *final(net) == *old(net) && final(self).pending() == old(self).pending(),
    {
        self.core.flush(net)
    }

    /// Hands the connection back after a last best-effort flush: when the
    /// pool has no buffer left for the final short packet, the buffered
    /// bytes are discarded, as the write side can no longer report errors.
    pub fn finish(self, net: &mut LibCspInstance) -> (r: CspClientConnection)
        requires
            old(net).wf(),
            self.wf_writer(*old(net)),
        ensures
            final(net).wf(),
            r == self.conn_spec(),
            r.attached(*final(net)),
            final(net).outbound(self.conn_spec().cid_spec()) == old(net).outbound(
                self.conn_spec().cid_spec(),
            ),
            same_fabric_except_circuit(*old(net), *final(net), self.conn_spec().cid_spec()),
            self.pending().len() == 0 ==> *final(net) == *old(net),
            self.pending().len() > 0 && old(net).pool_free() > 0 ==> {
                &&& final(net).inbound(self.conn_spec().cid_spec()) == old(net).inbound(
                    self.conn_spec().cid_spec(),
                ).push(
                    (
                        circuit_send_id(*old(net), self.conn_spec().cid_spec(), true),
                        self.pending(),
                    ),
                )
                &&& final(net).pool_free() == old(net).pool_free() - 1
            },
            self.pending().len() > 0 && old(net).pool_free() == 0 ==> *final(net) == *old(net),
    {
        let CspClientConnectionWriter { conn, mut core } = self;
        let _ = core.flush(net);
        conn
    }
}

} // verus!
