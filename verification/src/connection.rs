//! Accepted connections and the packet-stream adapters on top of them.

use vstd::prelude::*;
use crate::errors::{CspError, CspErrorKind};
use crate::id::{is_service_port_spec, CspConnAddress, CspId, SERVICE_PORT_MAX};
use crate::instance::{
    circuit_send_id, payloads_of, same_fabric_except_circuit, CspPacket,
    LibCspInstance,
};
use crate::stream::{chunk_rest, full_chunks, min_of};

verus! {

/// The bytes a packet queue carries, in order.
pub open spec fn queue_bytes(q: Seq<(CspId, Seq<u8>)>) -> Seq<u8> {
    payloads_of(q).flatten()
}

/// Payload chunks labelled with one identifier, in order.
pub open spec fn packets_with_id(id: CspId, chunks: Seq<Seq<u8>>) -> Seq<(CspId, Seq<u8>)> {
    chunks.map_values(|c: Seq<u8>| (id, c))
}

/// The accepted side of one circuit: the handle a server gets from an
/// accept. It reads what the peer sends and can send back; it must be
/// closed (directly or through the adapter that consumed it) to give its
/// circuit resources back.
#[derive(Debug)]
pub struct CspConnection {
    pub(crate) cid: usize,
    pub(crate) src: CspConnAddress,
    pub(crate) dst: CspConnAddress,
    pub(crate) service_timeout_ms: u32,
    pub(crate) max_buffer_size: u16,
}

impl CspConnection {
    /// The circuit this handle stands for.
    pub closed spec fn cid_spec(&self) -> int {
        self.cid as int
    }

    /// The peer's endpoint: the address and ephemeral port the connection
    /// was opened from.
    pub closed spec fn src_spec(&self) -> CspConnAddress {
        self.src
    }

    /// The local endpoint: the address and port the connection was opened
    /// to.
    pub closed spec fn dst_spec(&self) -> CspConnAddress {
        self.dst
    }

    /// The largest payload one packet can carry here.
    pub closed spec fn max_size_spec(&self) -> u16 {
        self.max_buffer_size
    }

    /// Whether this handle belongs to a circuit of `net` and mirrors its
    /// endpoints. Every handle the accept path produces does.
    pub open spec fn attached(&self, net: LibCspInstance) -> bool {
        &&& 0 <= self.cid_spec() < net.circuit_count()
        &&& self.src_spec() == net.circuit_initiator(self.cid_spec())
        &&& self.dst_spec() == net.circuit_target(self.cid_spec())
        &&& self.max_size_spec() == net.max_payload()
    }

    /// A handle for circuit `cid` with the given endpoints; the accept
    /// path is its only caller.
    pub(crate) fn attach(
        cid: usize,
        src: CspConnAddress,
        dst: CspConnAddress,
        service_timeout_ms: u32,
        max_buffer_size: u16,
    ) -> (r: CspConnection)
        ensures
            r.cid_spec() == cid as int,
            r.src_spec() == src,
            r.dst_spec() == dst,
            r.max_size_spec() == max_buffer_size,
    {
        CspConnection { cid, src, dst, service_timeout_ms, max_buffer_size }
    }

    /// The peer's endpoint.
    pub fn src(&self) -> (r: CspConnAddress)
        ensures
            r == self.src_spec(),
    {
        self.src
    }

    /// The local endpoint.
    pub fn dst(&self) -> (r: CspConnAddress)
        ensures
            r == self.dst_spec(),
    {
        self.dst
    }

    /// Whether the connection was opened to one of the reserved service
    /// ports.
    pub fn is_service_connection(&self) -> (r: bool)
        ensures
            r == is_service_port_spec(self.dst_spec().port),
    {
        self.dst.port <= SERVICE_PORT_MAX
    }

    /// Sends `data` as one packet to the peer. Fails with `Inval` when the
    /// payload is longer than the buffer size, with `NoBuffersAvailable`
    /// when the pool has no free buffer; otherwise the packet is queued
    /// byte-faithfully toward the peer.
    pub fn send_packet(&self, net: &mut LibCspInstance, data: &[u8]) -> (r: Result<(), CspError>)
        requires
            old(net).wf(),
            self.attached(*old(net)),
        ensures
            final(net).wf(),
            self.attached(*final(net)),
            r is Ok <==> data@.len() <= old(net).max_payload() && old(net).pool_free() > 0,
            data@.len() > old(net).max_payload() ==> r is Err && r->Err_0.kind
                == CspErrorKind::Inval && *final(net) == *old(net),
            data@.len() <= old(net).max_payload() && old(net).pool_free() == 0 ==> r is Err
                && r->Err_0.kind == CspErrorKind::NoBuffersAvailable && *final(net) == *old(net),
            r is Ok ==> {
                &&& final(net).outbound(self.cid_spec()) == old(net).outbound(
                    self.cid_spec(),
                ).push((circuit_send_id(*old(net), self.cid_spec(), false), data@))
                &&& final(net).inbound(self.cid_spec()) == old(net).inbound(self.cid_spec())
                &&& final(net).pool_free() == old(net).pool_free() - 1
                &&& same_fabric_except_circuit(*old(net), *final(net), self.cid_spec())
                &&& final(net).initiator_open(self.cid_spec()) == old(net).initiator_open(
                    self.cid_spec(),
                )
                &&& final(net).acceptor_open(self.cid_spec()) == old(net).acceptor_open(
                    self.cid_spec(),
                )
            },
    {
        net.send_on_circuit(self.cid, false, data)
    }

    /// Builds a packet in place: `f` is handed a zeroed buffer of the
    /// payload size and returns it with the number of bytes it filled; the
    /// packet carries exactly that prefix. Fails with `NoBuffersAvailable`
    /// before `f` runs when the pool is empty, and with `Inval` when the
    /// reported length exceeds the buffer size or the returned buffer.
    pub fn send_packet_with<F: FnOnce(Vec<u8>) -> (Vec<u8>, usize)>(
        &self,
        net: &mut LibCspInstance,
        f: F,
    ) -> (r: Result<(), CspError>)
        requires
            old(net).wf(),
            self.attached(*old(net)),
            forall|b: Vec<u8>|
                b@.len() == old(net).max_payload() as int ==> #[trigger] call_requires(f, (b,)),
        ensures
            final(net).wf(),
            self.attached(*final(net)),
            old(net).pool_free() == 0 ==> r is Err && r->Err_0.kind
                == CspErrorKind::NoBuffersAvailable,
            old(net).pool_free() > 0 ==> r is Ok || (r is Err && r->Err_0.kind
                == CspErrorKind::Inval),
            r is Err ==> *final(net) == *old(net) && (r->Err_0.kind
                == CspErrorKind::NoBuffersAvailable || r->Err_0.kind == CspErrorKind::Inval),
            r is Err && r->Err_0.kind == CspErrorKind::Inval ==> exists|
                b: Vec<u8>,
                out: (Vec<u8>, usize),
            |
                #[trigger] call_ensures(f, (b,), out) && (out.1 > old(net).max_payload()
                    || out.1 > out.0@.len()),
            r is Ok ==> {
                &&& exists|b: Vec<u8>, out: (Vec<u8>, usize)|
                    {
                        &&& #[trigger] call_ensures(f, (b,), out)
                        &&& out.1 <= old(net).max_payload()
                        &&& out.1 <= out.0@.len()
                        &&& final(net).outbound(self.cid_spec()) == old(net).outbound(
                            self.cid_spec(),
                        ).push(
                            (
                                circuit_send_id(*old(net), self.cid_spec(), false),
                                out.0@.take(out.1 as int),
                            ),
                        )
                    }
                &&& final(net).inbound(self.cid_spec()) == old(net).inbound(self.cid_spec())
                &&& final(net).pool_free() == old(net).pool_free() - 1
                &&& same_fabric_except_circuit(*old(net), *final(net), self.cid_spec())
                &&& final(net).initiator_open(self.cid_spec()) == old(net).initiator_open(
                    self.cid_spec(),
                )
                &&& final(net).acceptor_open(self.cid_spec()) == old(net).acceptor_open(
                    self.cid_spec(),
                )
            },
    {
        if net.buffers_free() == 0 {
            return Err(
                CspError::new(
                    CspErrorKind::NoBuffersAvailable,
                    "no buffers left in the buffer pool".to_string(),
                ),
            );
        }
        let size = net.config().buffer_data_size as usize;
        let buffer: Vec<u8> = vec![0u8; size];
        let ghost b0 = buffer;
        let ret = f(buffer);
        let ghost ret0 = ret;
        let (mut data, length) = ret;
        if length > size || length > data.len() {
            return Err(
                CspError::new(
                    CspErrorKind::Inval,
                    "returned length exceeds the maximum buffer size".to_string(),
                ),
            );
        }
        data.truncate(length);
        net.send_on_circuit(self.cid, false, data.as_slice())
    }

    /// Reads the next packet the peer sent, or `None` when none is queued —
    /// the timeout having passed without traffic, or the peer being done.
    pub fn read(&self, net: &mut LibCspInstance, timeout_ms: u32) -> (r: Option<CspPacket>)
        requires
            old(net).wf(),
            self.attached(*old(net)),
        ensures
            final(net).wf(),
            self.attached(*final(net)),
            r is None <==> old(net).inbound(self.cid_spec()).len() == 0,
            r is None ==> *final(net) == *old(net),
            r is Some ==> {
                &&& (r->Some_0.id_spec(), r->Some_0.payload()) == old(net).inbound(
                    self.cid_spec(),
                )[0]
                &&& final(net).inbound(self.cid_spec()) == old(net).inbound(self.cid_spec()).skip(
                    1,
                )
                &&& final(net).outbound(self.cid_spec()) == old(net).outbound(self.cid_spec())
                &&& final(net).pool_free() == old(net).pool_free()
                &&& same_fabric_except_circuit(*old(net), *final(net), self.cid_spec())
                &&& final(net).initiator_open(self.cid_spec()) == old(net).initiator_open(
                    self.cid_spec(),
                )
                &&& final(net).acceptor_open(self.cid_spec()) == old(net).acceptor_open(
                    self.cid_spec(),
                )
            },
    {
        let _ = timeout_ms;
        net.read_from_circuit(self.cid, true)
    }

    /// Drains a service connection: every queued packet goes to the
    /// built-in service handling, whose buffers return to the pool, and the
    /// handle is consumed, which closes its side of the circuit.
    pub fn handle_as_service_connection(self, net: &mut LibCspInstance)
        requires
            old(net).wf(),
            self.attached(*old(net)),
            is_service_port_spec(self.dst_spec().port),
        ensures
            final(net).wf(),
            final(net).inbound(self.cid_spec()) == Seq::<(CspId, Seq<u8>)>::empty(),
            !final(net).acceptor_open(self.cid_spec()),
            final(net).pool_free() == min_of(
                old(net).pool_free() + old(net).inbound(self.cid_spec()).len(),
                old(net).pool_size() as int,
            ),
            final(net).outbound(self.cid_spec()) == old(net).outbound(self.cid_spec()),
            final(net).initiator_open(self.cid_spec()) == old(net).initiator_open(
                self.cid_spec(),
            ),
            same_fabric_except_circuit(*old(net), *final(net), self.cid_spec()),
    {
        net.close_circuit_side(self.cid, true);
    }

    /// Closes this side of the circuit: packets still queued here return to
    /// the pool. Consuming the handle makes a second close impossible.
    pub fn close(self, net: &mut LibCspInstance)
        requires
            old(net).wf(),
            self.attached(*old(net)),
        ensures
            final(net).wf(),
            final(net).inbound(self.cid_spec()) == Seq::<(CspId, Seq<u8>)>::empty(),
            !final(net).acceptor_open(self.cid_spec()),
            final(net).pool_free() == min_of(
                old(net).pool_free() + old(net).inbound(self.cid_spec()).len(),
                old(net).pool_size() as int,
            ),
            final(net).outbound(self.cid_spec()) == old(net).outbound(self.cid_spec()),
            final(net).initiator_open(self.cid_spec()) == old(net).initiator_open(
                self.cid_spec(),
            ),
            same_fabric_except_circuit(*old(net), *final(net), self.cid_spec()),
    {
        net.close_circuit_side(self.cid, true);
    }

    /// Hands the connection to a lazy packet sequence bound to it.
    pub fn iter_packets(self, timeout_ms: u32) -> (r: CspConnectionPacketIter)
        ensures
            r.conn_spec() == self,
            r.timeout_spec() == timeout_ms,
            !r.done_spec(),
    {
        CspConnectionPacketIter::new(self, timeout_ms)
    }

    /// Hands the connection to a buffered byte-stream reader over its
    /// packets.
    pub fn into_reader(self, timeout_ms: u32) -> (r: CspConnectionPacketReader)
        ensures
            r.conn_spec() == self,
            r.cur_rest() == Seq::<u8>::empty(),
            r.holding_ok(),
            !r.finished_spec(),
    {
        CspConnectionPacketReader::new(self, timeout_ms)
    }

    /// Hands the connection to a buffered byte-stream writer toward the
    /// peer.
    pub fn into_writer(self) -> (r: CspConnectionWriter)
        ensures
            r.conn_spec() == self,
            r.pending() == Seq::<u8>::empty(),
            r.linked(),
    {
        CspConnectionWriter { core: PacketStreamBuf::new_stream_buf(self.cid, false), conn: self }
    }
}

/// A lazy sequence of the packets one connection receives: each step is one
/// blocking read, and the sequence terminates permanently once a read comes
/// back empty. It owns the connection, so nothing else can read it
/// meanwhile.
#[derive(Debug)]
pub struct CspConnectionPacketIter {
    conn: CspConnection,
    timeout_ms: u32,
    done: bool,
}

impl CspConnectionPacketIter {
    /// The connection the iterator owns.
    pub closed spec fn conn_spec(&self) -> CspConnection {
        self.conn
    }

    /// The timeout each read uses.
    pub closed spec fn timeout_spec(&self) -> u32 {
        self.timeout_ms
    }

    /// Whether the sequence has terminated.
    pub closed spec fn done_spec(&self) -> bool {
        self.done
    }

    /// Whether the owned connection belongs to `net`.
    pub open spec fn attached(&self, net: LibCspInstance) -> bool {
        self.conn_spec().attached(net)
    }

    /// Binds a packet sequence to `connection`, reading with `timeout_ms`.
    pub fn new(connection: CspConnection, timeout_ms: u32) -> (r: CspConnectionPacketIter)
        ensures
            r.conn_spec() == connection,
            r.timeout_spec() == timeout_ms,
            !r.done_spec(),
    {
        CspConnectionPacketIter { conn: connection, timeout_ms, done: false }
    }

    /// The next packet, or `None` when the read timed out or the peer is
    /// done — and from then on forever.
    pub fn next(&mut self, net: &mut LibCspInstance) -> (r: Option<CspPacket>)
        requires
            old(net).wf(),
            old(self).attached(*old(net)),
        ensures
            final(self).conn_spec() == old(self).conn_spec(),
            final(self).timeout_spec() == old(self).timeout_spec(),
            final(net).wf(),
            old(self).attached(*final(net)),
            r is None <==> old(self).done_spec() || old(net).inbound(
                old(self).conn_spec().cid_spec(),
            ).len() == 0,
            final(self).done_spec() == (old(self).done_spec() || old(net).inbound(
                old(self).conn_spec().cid_spec(),
            ).len() == 0),
            r is None ==> *final(net) == *old(net),
            r is Some ==> {
                &&& (r->Some_0.id_spec(), r->Some_0.payload()) == old(net).inbound(
                    old(self).conn_spec().cid_spec(),
                )[0]
                &&& final(net).inbound(old(self).conn_spec().cid_spec()) == old(net).inbound(
                    old(self).conn_spec().cid_spec(),
                ).skip(1)
                &&& final(net).outbound(old(self).conn_spec().cid_spec()) == old(net).outbound(
                    old(self).conn_spec().cid_spec(),
                )
                &&& final(net).pool_free() == old(net).pool_free()
                &&& same_fabric_except_circuit(
                    *old(net),
                    *final(net),
                    old(self).conn_spec().cid_spec(),
                )
                &&& final(net).initiator_open(old(self).conn_spec().cid_spec()) == old(net).initiator_open(old(self).conn_spec().cid_spec())
                &&& final(net).acceptor_open(old(self).conn_spec().cid_spec()) == old(net).acceptor_open(old(self).conn_spec().cid_spec())
            },
    {
        if self.done {
            return None;
        }
        let got = self.conn.read(net, self.timeout_ms);
        if got.is_none() {
            self.done = true;
        }
        got
    }

    /// Takes the connection back out of the iterator.
    pub fn into_connection(self) -> (r: CspConnection)
        ensures
            r == self.conn_spec(),
    {
        self.conn
    }
}

/// Taking the oldest packet off a queue takes exactly its payload off the
/// front of the queue's byte stream.
proof fn lemma_queue_bytes_pop(q: Seq<(CspId, Seq<u8>)>)
    requires
        q.len() > 0,
    ensures
        queue_bytes(q) =~= q[0].1 + queue_bytes(q.skip(1)),
{
    assert(payloads_of(q).len() == q.len());
    assert(payloads_of(q).first() == q[0].1);
    assert(payloads_of(q).drop_first() =~= payloads_of(q.skip(1)));
    assert(payloads_of(q).flatten() == payloads_of(q).first() + payloads_of(
        q,
    ).drop_first().flatten());
}

/// A buffered byte-stream reader over the packets one connection receives.
/// Packet boundaries disappear: reads hand out the payload bytes in order,
/// and a read that comes back short of a full packet marks the end of the
/// stream for good.
#[derive(Debug)]
pub struct CspConnectionPacketReader {
    conn: CspConnection,
    timeout_ms: u32,
    cur: Option<CspPacket>,
    pos: usize,
    finished: bool,
}

impl CspConnectionPacketReader {
    /// The connection the reader owns.
    pub closed spec fn conn_spec(&self) -> CspConnection {
        self.conn
    }

    /// The unread tail of the packet the reader holds, if any.
    pub closed spec fn cur_rest(&self) -> Seq<u8> {
        match self.cur {
            Some(p) => p.payload().skip(self.pos as int),
            None => Seq::empty(),
        }
    }

    /// Whether the stream has ended for good.
    pub closed spec fn finished_spec(&self) -> bool {
        self.finished
    }

    /// Internal consistency: the handle is attached and a held packet has
    /// unread bytes left.
    pub open spec fn wf_reader(&self, net: LibCspInstance) -> bool {
        &&& self.conn_spec().attached(net)
        &&& self.holding_ok()
    }

    /// A held packet always has unread bytes left.
    pub closed spec fn holding_ok(&self) -> bool {
        match self.cur {
            Some(p) => self.pos < p.payload().len(),
            None => true,
        }
    }

    /// The bytes still to be served, in order: the rest of the held packet,
    /// then everything queued on the circuit — nothing once the stream has
    /// ended.
    pub open spec fn available(&self, net: LibCspInstance) -> Seq<u8> {
        if self.finished_spec() {
            Seq::empty()
        } else {
            self.cur_rest() + queue_bytes(net.inbound(self.conn_spec().cid_spec()))
        }
    }

    /// Binds a stream reader to `connection`, reading with `timeout_ms`.
    pub fn new(connection: CspConnection, timeout_ms: u32) -> (r: CspConnectionPacketReader)
        ensures
            r.conn_spec() == connection,
            r.cur_rest() == Seq::<u8>::empty(),
            r.holding_ok(),
            !r.finished_spec(),
    {
        CspConnectionPacketReader { conn: connection, timeout_ms, cur: None, pos: 0, finished: false }
    }

    /// Serves up to `n` bytes of the stream: exactly the next
    /// `min(n, what is left)` bytes, in order. A result shorter than `n`
    /// means the stream has ended; in particular an empty result for a
    /// positive `n` happens only at the end of the stream.
    pub fn read(&mut self, net: &mut LibCspInstance, n: usize) -> (r: Vec<u8>)
        requires
            old(net).wf(),
            old(self).wf_reader(*old(net)),
        ensures
            final(net).wf(),
            final(self).wf_reader(*final(net)),
            final(self).conn_spec() == old(self).conn_spec(),
            r@ == old(self).available(*old(net)).take(
                min_of(n as int, old(self).available(*old(net)).len() as int),
            ),
            final(self).available(*final(net)) == old(self).available(*old(net)).skip(
                min_of(n as int, old(self).available(*old(net)).len() as int),
            ),
            final(self).finished_spec() == (old(self).finished_spec() || n > old(self).available(
                *old(net),
            ).len()),
            old(self).finished_spec() ==> *final(net) == *old(net),
            final(net).pool_free() >= old(net).pool_free(),
            final(net).outbound(old(self).conn_spec().cid_spec()) == old(net).outbound(
                old(self).conn_spec().cid_spec(),
            ),
            final(net).initiator_open(old(self).conn_spec().cid_spec()) == old(net).initiator_open(old(self).conn_spec().cid_spec()),
            final(net).acceptor_open(old(self).conn_spec().cid_spec()) == old(net).acceptor_open(
                old(self).conn_spec().cid_spec(),
            ),
            same_fabric_except_circuit(*old(net), *final(net), old(self).conn_spec().cid_spec()),
    {
        let ghost avail0 = old(self).available(*old(net));
        let ghost net0 = *old(net);
        let ghost cid = old(self).conn_spec().cid_spec();
        let mut out: Vec<u8> = Vec::new();
        loop
            invariant
                avail0 == old(self).available(*old(net)),
                net0 == *old(net),
                cid == old(self).conn_spec().cid_spec(),
                net.wf(),
                self.wf_reader(*net),
                self.conn_spec() == old(self).conn_spec(),
                out@.len() <= n,
                out@ + self.available(*net) =~= avail0,
                old(self).finished_spec() ==> *net == *old(net),
                self.finished_spec() ==> old(self).finished_spec() || n > avail0.len(),
                old(self).finished_spec() ==> self.finished_spec(),
                net.pool_free() >= net0.pool_free(),
                net.outbound(cid) == net0.outbound(cid),
                net.initiator_open(cid) == net0.initiator_open(cid),
                net.acceptor_open(cid) == net0.acceptor_open(cid),
                same_fabric_except_circuit(net0, *net, cid),
            decreases (n - out@.len()) as int, 2 * net.inbound(cid).len() + (match self.cur {
                Some(_) => 1int,
                None => 0int,
            }),
        {
            if out.len() >= n {
                proof {
                    assert(out@.len() == n);
                    assert(avail0.len() >= n);
                    assert(out@ =~= avail0.take(min_of(n as int, avail0.len() as int)));
                    assert(self.available(*net) =~= avail0.skip(
                        min_of(n as int, avail0.len() as int),
                    ));
                }
                return out;
            }
            if self.finished {
                proof {
                    assert(self.available(*net) =~= Seq::<u8>::empty());
                    assert(avail0.len() == out@.len());
                    assert(out@ =~= avail0.take(min_of(n as int, avail0.len() as int)));
                    assert(self.available(*net) =~= avail0.skip(
                        min_of(n as int, avail0.len() as int),
                    ));
                }
                return out;
            }
            let has_packet = self.cur.is_some();
            if has_packet {
                let ghost self0 = *self;
                let ghost out0 = out@;
                let p = self.cur.as_ref().unwrap();
                let s = p.as_slice();
                let b = s[self.pos];
                out.push(b);
                self.pos = self.pos + 1;
                proof {
                    assert(self0.cur_rest()[0] == b);
                    assert(self.cur_rest() =~= self0.cur_rest().skip(1));
                    assert(out@ =~= out0.push(b));
                    assert(out@ + self.available(*net) =~= (out0 + self0.available(*net)));
                    assert(out@ + self.available(*net) =~= avail0);
                }
                let p_done = {
                    let q = self.cur.as_ref().unwrap();
                    self.pos == q.as_slice().len()
                };
                if p_done {
                    let ghost self1 = *self;
                    proof {
                        crate::instance::lemma_pool_bound(*net);
                    }
                    let taken = self.cur.take();
                    let packet = taken.unwrap();
                    packet.release(net);
                    self.pos = 0;
                    proof {
                        assert(self.cur_rest() =~= self1.cur_rest());
                        assert(out@ + self.available(*net) =~= avail0);
                    }
                }
            } else {
                let ghost qb = net.inbound(cid);
                let got = net.read_from_circuit(self.conn.cid, true);
                match got {
                    None => {
                        self.finished = true;
                        proof {
                            assert(qb.len() == 0);
                            assert(queue_bytes(qb) =~= Seq::<u8>::empty());
                            assert(avail0.len() == out@.len());
                            assert(out@ =~= avail0.take(min_of(n as int, avail0.len() as int)));
                            assert(self.available(*net) =~= avail0.skip(
                                min_of(n as int, avail0.len() as int),
                            ));
                        }
                        return out;
                    },
                    Some(packet) => {
                        proof {
                            lemma_queue_bytes_pop(qb);
                            assert(packet.payload() == qb[0].1);
                            assert(net.inbound(cid) == qb.skip(1));
                        }
                        if packet.as_slice().len() == 0 {
                            proof {
                                crate::instance::lemma_pool_bound(*net);
                            }
                            packet.release(net);
                            proof {
                                assert(queue_bytes(qb) =~= queue_bytes(qb.skip(1)));
                                assert(out@ + self.available(*net) =~= avail0);
                            }
                        } else {
                            self.cur = Some(packet);
                            self.pos = 0;
                            proof {
                                assert(self.cur_rest() =~= qb[0].1);
                                assert(self.available(*net) =~= queue_bytes(qb));
                                assert(out@ + self.available(*net) =~= avail0);
                            }
                        }
                    },
                }
            }
        }
    }

    /// Takes the connection back out of the reader; a held packet goes back
    /// to the pool, exactly once.
    pub fn into_connection(self, net: &mut LibCspInstance) -> (r: CspConnection)
        requires
            old(net).wf(),
            self.holding_ok(),
        ensures
            final(net).wf(),
            r == self.conn_spec(),
            crate::instance::same_fabric_except_pool(*old(net), *final(net)),
            final(net).pool_free() == if self.cur_rest().len() > 0 {
                min_of(old(net).pool_free() + 1, old(net).pool_size() as int)
            } else {
                old(net).pool_free() as int
            },
    {
        proof {
            crate::instance::lemma_pool_bound(*old(net));
        }
        let CspConnectionPacketReader { conn, cur, .. } = self;
        match cur {
            Some(p) => p.release(net),
            None => (),
        }
        conn
    }
}

/// The buffered sending side shared by the stream writers: bytes accumulate
/// in a buffer of the packet payload size; each time it fills exactly, it
/// goes out as one packet at once.
#[derive(Debug)]
pub(crate) struct PacketStreamBuf {
    pub(crate) cid: usize,
    pub(crate) to_acceptor: bool,
    pub(crate) buf: Vec<u8>,
}

impl PacketStreamBuf {
    /// The bytes accepted but not yet sent.
    pub closed spec fn pending(&self) -> Seq<u8> {
        self.buf@
    }

    /// An empty buffer writing to circuit `cid` in the given direction.
    pub(crate) fn new_stream_buf(cid: usize, to_acceptor: bool) -> (r: PacketStreamBuf)
        ensures
            r.pending() == Seq::<u8>::empty(),
            r.cid_spec() == cid as int,
            r.dir_spec() == to_acceptor,
    {
        let r = PacketStreamBuf { cid, to_acceptor, buf: Vec::new() };
        proof {
            assert(r.pending() =~= Seq::<u8>::empty());
        }
        r
    }

    /// The circuit written to.
    pub closed spec fn cid_spec(&self) -> int {
        self.cid as int
    }

    /// The direction written in.
    pub closed spec fn dir_spec(&self) -> bool {
        self.to_acceptor
    }

    /// The queue written to, in the chosen direction.
    pub open spec fn sink(&self, net: LibCspInstance) -> Seq<(CspId, Seq<u8>)> {
        if self.dir_spec() {
            net.inbound(self.cid_spec())
        } else {
            net.outbound(self.cid_spec())
        }
    }

    /// The queue in the opposite direction.
    pub open spec fn other(&self, net: LibCspInstance) -> Seq<(CspId, Seq<u8>)> {
        if self.dir_spec() {
            net.outbound(self.cid_spec())
        } else {
            net.inbound(self.cid_spec())
        }
    }

    /// Internal consistency: a valid circuit and a buffer within the packet
    /// size.
    pub open spec fn wf_buf(&self, net: LibCspInstance) -> bool {
        &&& 0 <= self.cid_spec() < net.circuit_count()
        &&& self.pending().len() <= net.max_payload()
    }

    /// The identifier every packet of this writer carries.
    pub open spec fn send_id(&self, net: LibCspInstance) -> CspId {
        circuit_send_id(net, self.cid_spec(), self.dir_spec())
    }

    /// Accepts all of `data`: the buffer fills and goes out packet by
    /// packet of exactly the payload size, the remainder staying buffered.
    /// A zero-length write is a no-op. When the pool runs out mid-way, the
    /// write stops at a packet boundary, the unsendable packet stays
    /// buffered, and the call fails; the bytes already sent are on the
    /// wire.
    pub(crate) fn write(&mut self, net: &mut LibCspInstance, data: &[u8]) -> (r: Result<
        usize,
        CspError,
    >)
        requires
            old(net).wf(),
            old(self).wf_buf(*old(net)),
        ensures
            final(net).wf(),
            final(self).wf_buf(*final(net)),
            final(self).cid_spec() == old(self).cid_spec(),
            final(self).dir_spec() == old(self).dir_spec(),
            final(self).other(*final(net)) == old(self).other(*old(net)),
            same_fabric_except_circuit(*old(net), *final(net), old(self).cid_spec()),
            final(net).initiator_open(old(self).cid_spec()) == old(net).initiator_open(
                old(self).cid_spec(),
            ),
            final(net).acceptor_open(old(self).cid_spec()) == old(net).acceptor_open(
                old(self).cid_spec(),
            ),
            data@.len() == 0 ==> r is Ok && r->Ok_0 == 0 && *final(net) == *old(net)
                && final(self).pending() == old(self).pending(),
            r is Ok <==> data@.len() == 0 || full_chunks(
                old(self).pending() + data@,
                old(net).max_payload() as nat,
            ).len() <= old(net).pool_free(),
            data@.len() > 0 && r is Ok ==> {
                &&& r->Ok_0 == data@.len()
                &&& final(self).pending() == chunk_rest(
                    old(self).pending() + data@,
                    old(net).max_payload() as nat,
                )
                &&& final(self).sink(*final(net)) == old(self).sink(*old(net)) + packets_with_id(
                    old(self).send_id(*old(net)),
                    full_chunks(old(self).pending() + data@, old(net).max_payload() as nat),
                )
                &&& final(net).pool_free() == old(net).pool_free() - full_chunks(
                    old(self).pending() + data@,
                    old(net).max_payload() as nat,
                ).len()
            },
            r is Err ==> {
                &&& r->Err_0.kind == CspErrorKind::NoBuffersAvailable
                &&& final(net).pool_free() == 0
                &&& final(self).pending() == full_chunks(
                    old(self).pending() + data@,
                    old(net).max_payload() as nat,
                )[old(net).pool_free() as int]
                &&& final(self).sink(*final(net)) == old(self).sink(*old(net)) + packets_with_id(
                    old(self).send_id(*old(net)),
                    full_chunks(old(self).pending() + data@, old(net).max_payload() as nat).take(
                        old(net).pool_free() as int,
                    ),
                )
            },
    {
        if data.len() == 0 {
            return Ok(0);
        }
        let ghost t = old(self).pending() + data@;
        let ghost max = old(net).max_payload() as nat;
        let ghost net0 = *old(net);
        let ghost q0 = old(self).sink(*old(net));
        let ghost id0 = old(self).send_id(*old(net));
        let ghost cid = old(self).cid_spec();
        let max_size = net.config().buffer_data_size;
        let mut i: usize = 0;
        let ghost mut emitted: Seq<Seq<u8>> = Seq::empty();
        proof {
            crate::instance::lemma_pool_bound(*old(net));
            assert(self.pending() + data@.skip(0) =~= t);
            assert(full_chunks(t, max) =~= emitted + full_chunks(t, max));
            assert(q0 + packets_with_id(id0, emitted) =~= q0);
        }
        loop
            invariant
                t == old(self).pending() + data@,
                max == old(net).max_payload() as nat,
                net0 == *old(net),
                q0 == old(self).sink(*old(net)),
                id0 == old(self).send_id(*old(net)),
                cid == old(self).cid_spec(),
                net.wf(),
                self.wf_buf(*net),
                self.cid_spec() == cid,
                self.dir_spec() == old(self).dir_spec(),
                max == net.max_payload() as nat,
                max_size == net.max_payload(),
                max > 0,
                data@.len() > 0,
                i <= data@.len(),
                full_chunks(t, max) =~= emitted + full_chunks(
                    self.pending() + data@.skip(i as int),
                    max,
                ),
                chunk_rest(t, max) =~= chunk_rest(self.pending() + data@.skip(i as int), max),
                self.sink(*net) =~= q0 + packets_with_id(id0, emitted),
                net.pool_free() == net0.pool_free() - emitted.len(),
                emitted.len() <= net0.pool_free(),
                self.send_id(*net) == id0,
                self.other(*net) == old(self).other(net0),
                same_fabric_except_circuit(net0, *net, cid),
                net.initiator_open(cid) == net0.initiator_open(cid),
                net.acceptor_open(cid) == net0.acceptor_open(cid),
            decreases (data@.len() - i) as int, self.pending().len() as int,
        {
            let ghost rem = self.pending() + data@.skip(i as int);
            if self.buf.len() == max_size as usize {
                proof {
                    assert(rem.len() >= max);
                    assert(rem.take(max as int) =~= self.pending());
                    assert(rem.skip(max as int) =~= data@.skip(i as int));
                    assert(full_chunks(rem, max) == seq![rem.take(max as int)] + full_chunks(
                        rem.skip(max as int),
                        max,
                    ));
                }
                let res = net.send_on_circuit(self.cid, self.to_acceptor, self.buf.as_slice());
                match res {
                    Ok(()) => {
                        let ghost sent = self.pending();
                        self.buf.clear();
                        proof {
                            emitted = emitted.push(sent);
                            assert(self.pending() + data@.skip(i as int) =~= data@.skip(i as int));
                            assert(emitted.drop_last() + (seq![sent] + full_chunks(
                                data@.skip(i as int),
                                max,
                            )) =~= emitted + full_chunks(data@.skip(i as int), max));
                            assert(full_chunks(t, max) =~= emitted + full_chunks(
                                self.pending() + data@.skip(i as int),
                                max,
                            ));
                            assert(chunk_rest(rem, max) == chunk_rest(rem.skip(max as int), max));
                            assert(self.sink(*net) =~= q0 + packets_with_id(id0, emitted));
                        }
                    },
                    Err(e) => {
                        proof {
                            assert(net.pool_free() == 0);
                            assert(emitted.len() == net0.pool_free());
                            assert(full_chunks(rem, max)[0] == rem.take(max as int));
                            assert((emitted + full_chunks(rem, max))[emitted.len() as int]
                                == full_chunks(rem, max)[0]);
                            assert(self.pending() == full_chunks(t, max)[net0.pool_free() as int]);
                            assert(full_chunks(t, max).take(emitted.len() as int) =~= emitted);
                            assert(full_chunks(t, max).len() >= emitted.len() + 1);
                        }
                        return Err(e);
                    },
                }
            } else if i == data.len() {
                proof {
                    assert(data@.skip(i as int) =~= Seq::<u8>::empty());
                    assert(rem =~= self.pending());
                    assert(rem.len() < max);
                    assert(full_chunks(rem, max) =~= Seq::<Seq<u8>>::empty());
                    assert(emitted + full_chunks(rem, max) =~= emitted);
                    assert(full_chunks(t, max) =~= emitted);
                    assert(chunk_rest(rem, max) == rem);
                    assert(self.pending() == chunk_rest(t, max));
                }
                return Ok(i);
            } else {
                let b = data[i];
                self.buf.push(b);
                i = i + 1;
                proof {
                    assert(self.pending() + data@.skip(i as int) =~= rem);
                }
            }
        }
    }

    /// Sends whatever is buffered as one final, possibly short, packet; a
    /// no-op when nothing is buffered. Fails with `NoBuffersAvailable`, the
    /// bytes staying buffered, when the pool has no free buffer.
    pub(crate) fn flush(&mut self, net: &mut LibCspInstance) -> (r: Result<(), CspError>)
        requires
            old(net).wf(),
            old(self).wf_buf(*old(net)),
        ensures
            final(net).wf(),
            final(self).wf_buf(*final(net)),
            final(self).cid_spec() == old(self).cid_spec(),
            final(self).dir_spec() == old(self).dir_spec(),
            final(self).other(*final(net)) == old(self).other(*old(net)),
            same_fabric_except_circuit(*old(net), *final(net), old(self).cid_spec()),
            final(net).initiator_open(old(self).cid_spec()) == old(net).initiator_open(
                old(self).cid_spec(),
            ),
            final(net).acceptor_open(old(self).cid_spec()) == old(net).acceptor_open(
                old(self).cid_spec(),
            ),
            r is Ok <==> old(self).pending().len() == 0 || old(net).pool_free() > 0,
            old(self).pending().len() == 0 ==> r is Ok && *final(net) == *old(net) && final(self).pending() == old(self).pending(),
            old(self).pending().len() > 0 && old(net).pool_free() > 0 ==> {
                &&& final(self).pending() == Seq::<u8>::empty()
                &&& final(self).sink(*final(net)) == old(self).sink(*old(net)).push(
                    (old(self).send_id(*old(net)), old(self).pending()),
                )
                &&& final(net).pool_free() == old(net).pool_free() - 1
            },
            r is Err ==> r->Err_0.kind == CspErrorKind::NoBuffersAvailable && *final(net) == *old(net) && final(self).pending() == old(self).pending(),
    {
        if self.buf.len() == 0 {
            return Ok(());
        }
        let res = net.send_on_circuit(self.cid, self.to_acceptor, self.buf.as_slice());
        match res {
            Ok(()) => {
                self.buf.clear();
                Ok(())
            },
            Err(e) => Err(e),
        }
    }
}

/// A buffered byte-stream writer toward the peer of an accepted
/// connection. Bytes accumulate up to the packet payload size and go out
/// as full packets; `flush` sends a final short packet. It owns the
/// connection; `finish` hands it back after a last best-effort flush.
#[derive(Debug)]
pub struct CspConnectionWriter {
    pub(crate) conn: CspConnection,
    pub(crate) core: PacketStreamBuf,
}

impl CspConnectionWriter {
    /// The connection the writer owns.
    pub closed spec fn conn_spec(&self) -> CspConnection {
        self.conn
    }

    /// The bytes accepted but not yet sent.
    pub closed spec fn pending(&self) -> Seq<u8> {
        self.core.pending()
    }

    /// The buffer writes to the same circuit the connection reads from.
    pub closed spec fn linked(&self) -> bool {
        &&& self.core.cid_spec() == self.conn_spec().cid_spec()
        &&& !self.core.dir_spec()
    }

    /// Internal consistency: the handle is attached and the buffer fits a
    /// packet.
    pub open spec fn wf_writer(&self, net: LibCspInstance) -> bool {
        &&& self.linked()
        &&& self.conn_spec().attached(net)
        &&& self.pending().len() <= net.max_payload()
    }

    /// Accepts all of `data` into the stream: full packets of exactly the
    /// payload size go out as the buffer fills, the remainder stays
    /// buffered. A zero-length write is a no-op. When the pool runs out
    /// mid-way the call fails with
    /// `NoBuffersAvailable`; the packets already sent are on the wire and
    /// the first unsendable packet stays buffered.
    pub fn write(&mut self, net: &mut LibCspInstance, data: &[u8]) -> (r: Result<usize, CspError>)
        requires
            old(net).wf(),
            old(self).wf_writer(*old(net)),
        ensures
            final(net).wf(),
            final(self).wf_writer(*final(net)),
            final(self).conn_spec() == old(self).conn_spec(),
            final(net).inbound(old(self).conn_spec().cid_spec()) == old(net).inbound(
                old(self).conn_spec().cid_spec(),
            ),
            same_fabric_except_circuit(*old(net), *final(net), old(self).conn_spec().cid_spec()),
            final(net).initiator_open(old(self).conn_spec().cid_spec()) == old(net).initiator_open(old(self).conn_spec().cid_spec()),
            final(net).acceptor_open(old(self).conn_spec().cid_spec()) == old(net).acceptor_open(
                old(self).conn_spec().cid_spec(),
            ),
            data@.len() == 0 ==> r is Ok && r->Ok_0 == 0 && *final(net) == *old(net)
                && final(self).pending() == old(self).pending(),
            r is Ok <==> data@.len() == 0 || full_chunks(
                old(self).pending() + data@,
                old(net).max_payload() as nat,
            ).len() <= old(net).pool_free(),
            data@.len() > 0 && r is Ok ==> {
                &&& r->Ok_0 == data@.len()
                &&& final(self).pending() == chunk_rest(
                    old(self).pending() + data@,
                    old(net).max_payload() as nat,
                )
                &&& final(net).outbound(old(self).conn_spec().cid_spec()) == old(net).outbound(
                    old(self).conn_spec().cid_spec(),
                ) + packets_with_id(
                    circuit_send_id(*old(net), old(self).conn_spec().cid_spec(), false),
                    full_chunks(old(self).pending() + data@, old(net).max_payload() as nat),
                )
                &&& final(net).pool_free() == old(net).pool_free() - full_chunks(
                    old(self).pending() + data@,
                    old(net).max_payload() as nat,
                ).len()
            },
            r is Err ==> {
                &&& r->Err_0.kind == CspErrorKind::NoBuffersAvailable
                &&& final(net).pool_free() == 0
                &&& final(net).outbound(old(self).conn_spec().cid_spec()) == old(net).outbound(
                    old(self).conn_spec().cid_spec(),
                ) + packets_with_id(
                    circuit_send_id(*old(net), old(self).conn_spec().cid_spec(), false),
                    full_chunks(old(self).pending() + data@, old(net).max_payload() as nat).take(
                        old(net).pool_free() as int,
                    ),
                )
            },
    {
        self.core.write(net, data)
    }

    /// Sends whatever is buffered as one final, possibly short, packet; a
    /// no-op when nothing is buffered.
    pub fn flush(&mut self, net: &mut LibCspInstance) -> (r: Result<(), CspError>)
        requires
            old(net).wf(),
            old(self).wf_writer(*old(net)),
        ensures
            final(net).wf(),
            final(self).wf_writer(*final(net)),
            final(self).conn_spec() == old(self).conn_spec(),
            final(net).inbound(old(self).conn_spec().cid_spec()) == old(net).inbound(
                old(self).conn_spec().cid_spec(),
            ),
            same_fabric_except_circuit(*old(net), *final(net), old(self).conn_spec().cid_spec()),
            final(net).initiator_open(old(self).conn_spec().cid_spec()) == old(net).initiator_open(old(self).conn_spec().cid_spec()),
            final(net).acceptor_open(old(self).conn_spec().cid_spec()) == old(net).acceptor_open(
                old(self).conn_spec().cid_spec(),
            ),
            r is Ok <==> old(self).pending().len() == 0 || old(net).pool_free() > 0,
            old(self).pending().len() == 0 ==> r is Ok && *final(net) == *old(net) && final(self).pending() == old(self).pending(),
            old(self).pending().len() > 0 && old(net).pool_free() > 0 ==> {
                &&& final(self).pending() == Seq::<u8>::empty()
                &&& final(net).outbound(old(self).conn_spec().cid_spec()) == old(net).outbound(
                    old(self).conn_spec().cid_spec(),
                ).push(
                    (
                        circuit_send_id(*old(net), old(self).conn_spec().cid_spec(), false),
                        old(self).pending(),
                    ),
                )
                &&& final(net).pool_free() == old(net).pool_free() - 1
            },
            r is Err ==> r->Err_0.kind == CspErrorKind::NoBuffersAvailable && *final(net) == *old(net) && final(self).pending() == old(self).pending(),
    {
        self.core.flush(net)
    }

    /// Hands the connection back after a last best-effort flush: when the
    /// pool has no buffer left for the final short packet, the buffered
    /// bytes are discarded, as the write side can no longer report errors.
    pub fn finish(self, net: &mut LibCspInstance) -> (r: CspConnection)
        requires
            old(net).wf(),
            self.wf_writer(*old(net)),
        ensures
            final(net).wf(),
            r == self.conn_spec(),
            r.attached(*final(net)),
            final(net).inbound(self.conn_spec().cid_spec()) == old(net).inbound(
                self.conn_spec().cid_spec(),
            ),
            same_fabric_except_circuit(*old(net), *final(net), self.conn_spec().cid_spec()),
            self.pending().len() == 0 ==> *final(net) == *old(net),
            self.pending().len() > 0 && old(net).pool_free() > 0 ==> {
                &&& final(net).outbound(self.conn_spec().cid_spec()) == old(net).outbound(
                    self.conn_spec().cid_spec(),
                ).push(
                    (
                        circuit_send_id(*old(net), self.conn_spec().cid_spec(), false),
                        self.pending(),
                    ),
                )
                &&& final(net).pool_free() == old(net).pool_free() - 1
            },
            self.pending().len() > 0 && old(net).pool_free() == 0 ==> *final(net) == *old(net),
    {
        let CspConnectionWriter { conn, mut core } = self;
        let _ = core.flush(net);
        conn
    }
}

} // verus!
