//! The stack instance: the explicit state of the packet fabric.
//!
//! The underlying packet-switched stack keeps its state — buffer pool, port
//! table, circuit table — process-wide. Verified code holds no hidden global
//! state, so this layer carries that state in a [`LibCspInstance`] value
//! instead, and every operation that would call into the stack takes the
//! instance as an argument. Sockets, connections and packet handles are
//! indices into it; their modules wrap the primitives defined here.

use vstd::prelude::*;
use crate::config::{CspDebugChannel, LibCspConfig};
use crate::errors::{CspError, CspErrorKind};
use crate::id::{CspConnAddress, CspConnPriority, CspId};
use crate::interface::CspInterface;
use crate::port::ANY_PORT;
use crate::route::Route;
use crate::stream::min_of;

verus! {

/// A handle that owns one pool-allocated packet: its identifier and its
/// payload. A handle is produced only by a successful read on a connection;
/// it is not clonable, so the buffer it stands for can be given back to the
/// pool at most once, by `release`. Giving it back is the holder's duty: a
/// handle that is simply dropped leaks its buffer for the instance's
/// lifetime, since a plain drop cannot reach the pool the instance holds.
#[derive(Debug)]
pub struct CspPacket {
    pub(crate) id: CspId,
    pub(crate) data: Vec<u8>,
}

impl CspPacket {
    /// The identifier the packet carries.
    pub closed spec fn id_spec(&self) -> CspId {
        self.id
    }

    /// The payload bytes the packet carries.
    pub closed spec fn payload(&self) -> Seq<u8> {
        self.data@
    }

    /// The identifier the packet carries: priority, flags and the two
    /// endpoints.
    pub fn id(&self) -> (r: CspId)
        ensures
            r == self.id_spec(),
    {
        self.id
    }

    /// The payload as a byte slice, exactly as long as the packet's
    /// reported length.
    pub fn as_slice(&self) -> (r: &[u8])
        ensures
            r@ == self.payload(),
    {
        self.data.as_slice()
    }

    /// Gives the packet's buffer back to the pool of the instance it came
    /// from. Consumes the handle, so each buffer is returned exactly once.
    pub fn release(self, net: &mut LibCspInstance)
        requires
            old(net).wf(),
        ensures
            final(net).wf(),
            final(net).pool_free() == min_of(
                old(net).pool_free() + 1,
                old(net).pool_size() as int,
            ),
            same_fabric_except_pool(*old(net), *final(net)),
    {
        net.release_buffer();
    }
}

/// The first port handed out to the initiating side of a circuit; active
/// opens take ephemeral source ports from here upward and wrap around.
pub const EPHEMERAL_PORT_FIRST: u8 = 16;

/// The last ephemeral source port before the counter wraps around.
pub const EPHEMERAL_PORT_LAST: u8 = 254;

/// One live circuit: the two endpoints, the queue of packets travelling in
/// each direction, and whether each side is still open.
pub(crate) struct CircuitState {
    /// The endpoint that opened the circuit.
    pub(crate) initiator: CspConnAddress,
    /// The endpoint that was connected to.
    pub(crate) target: CspConnAddress,
    /// The priority the initiator chose.
    pub(crate) priority: CspConnPriority,
    /// Packets sent by the initiator, not yet read by the acceptor.
    pub(crate) to_acceptor: Vec<CspPacket>,
    /// Packets sent by the acceptor, not yet read by the initiator.
    pub(crate) to_initiator: Vec<CspPacket>,
    /// Whether the initiating side has not closed yet.
    pub(crate) initiator_open: bool,
    /// Whether the accepting side has not closed yet.
    pub(crate) acceptor_open: bool,
}

/// One listening socket: the port it is bound to (or the "any port"
/// sentinel) and the circuits waiting to be accepted.
pub(crate) struct SocketState {
    /// The bound port value.
    pub(crate) port: u8,
    /// Whether the socket still listens.
    pub(crate) open: bool,
    /// Circuits that connected here and wait for an accept, oldest first.
    pub(crate) pending: Vec<usize>,
}

/// The first socket from `i` on that listens on exactly `port`, or -1.
pub(crate) open spec fn listener_from(sockets: Seq<SocketState>, port: u8, i: int) -> int
    decreases sockets.len() - i,
{
    if i < 0 || i >= sockets.len() {
        -1
    } else if sockets[i].open && sockets[i].port == port {
        i
    } else {
        listener_from(sockets, port, i + 1)
    }
}

/// A global stack instance: the whole state of the packet fabric. There is
/// no hidden state besides it; two instances are two disjoint fabrics.
pub struct LibCspInstance {
    pub(crate) config: LibCspConfig,
    pub(crate) debug_channels: Vec<CspDebugChannel>,
    pub(crate) buffers_free: u16,
    pub(crate) next_ephemeral: u8,
    pub(crate) routes: Vec<(Route, CspInterface)>,
    pub(crate) sockets: Vec<SocketState>,
    pub(crate) circuits: Vec<CircuitState>,
}

impl LibCspInstance {
    /// The configuration the instance was built with.
    pub closed spec fn cfg(&self) -> LibCspConfig {
        self.config
    }

    /// The node address of this instance.
    pub open spec fn local_address(&self) -> u16 {
        self.cfg().address as u16
    }

    /// The payload bytes one packet can carry.
    pub open spec fn max_payload(&self) -> u16 {
        self.cfg().buffer_data_size
    }

    /// How many buffers the pool was created with.
    pub open spec fn pool_size(&self) -> u16 {
        self.cfg().buffers
    }

    /// How many pending circuits a listening socket may hold.
    pub open spec fn backlog_limit(&self) -> usize {
        self.cfg().connection_backlog
    }

    /// How many buffers are free in the pool right now.
    pub closed spec fn pool_free(&self) -> u16 {
        self.buffers_free
    }

    /// The ephemeral port the next active open will take.
    pub closed spec fn next_eph(&self) -> u8 {
        self.next_ephemeral
    }

    /// The debug channels enabled at build time.
    pub closed spec fn debug_view(&self) -> Seq<CspDebugChannel> {
        self.debug_channels@
    }

    /// The registered routes with their interfaces, in registration order.
    pub closed spec fn routes_view(&self) -> Seq<(Route, CspInterface)> {
        self.routes@
    }

    /// How many sockets have been opened (closed ones keep their slot).
    pub closed spec fn socket_count(&self) -> int {
        self.sockets@.len() as int
    }

    /// The port socket `sid` is bound to.
    pub closed spec fn socket_port(&self, sid: int) -> u8 {
        self.sockets@[sid].port
    }

    /// Whether socket `sid` still listens.
    pub closed spec fn socket_open(&self, sid: int) -> bool {
        self.sockets@[sid].open
    }

    /// The circuits waiting to be accepted on socket `sid`, oldest first.
    pub closed spec fn socket_pending(&self, sid: int) -> Seq<usize> {
        self.sockets@[sid].pending@
    }

    /// Whether some open socket is bound to exactly `port`.
    pub closed spec fn port_taken(&self, port: u8) -> bool {
        listener_from(self.sockets@, port, 0) >= 0
    }

    /// The socket an active open to `port` reaches: the first open socket
    /// bound to exactly that port, else the first bound to "any port", else
    /// -1.
    pub closed spec fn listener_sid(&self, port: u8) -> int {
        if listener_from(self.sockets@, port, 0) >= 0 {
            listener_from(self.sockets@, port, 0)
        } else {
            listener_from(self.sockets@, ANY_PORT, 0)
        }
    }

    /// How many circuits have been opened (closed ones keep their slot).
    pub closed spec fn circuit_count(&self) -> int {
        self.circuits@.len() as int
    }

    /// The endpoint that opened circuit `cid`.
    pub closed spec fn circuit_initiator(&self, cid: int) -> CspConnAddress {
        self.circuits@[cid].initiator
    }

    /// The endpoint circuit `cid` was opened to.
    pub closed spec fn circuit_target(&self, cid: int) -> CspConnAddress {
        self.circuits@[cid].target
    }

    /// The priority circuit `cid` was opened with.
    pub closed spec fn circuit_priority(&self, cid: int) -> CspConnPriority {
        self.circuits@[cid].priority
    }

    /// The packets queued toward the acceptor of circuit `cid`, as
    /// identifier and payload, oldest first.
    pub closed spec fn inbound(&self, cid: int) -> Seq<(CspId, Seq<u8>)> {
        self.circuits@[cid].to_acceptor@.map_values(|p: CspPacket| (p.id_spec(), p.payload()))
    }

    /// The packets queued toward the initiator of circuit `cid`.
    pub closed spec fn outbound(&self, cid: int) -> Seq<(CspId, Seq<u8>)> {
        self.circuits@[cid].to_initiator@.map_values(|p: CspPacket| (p.id_spec(), p.payload()))
    }

    /// Whether the initiating side of circuit `cid` is still open.
    pub closed spec fn initiator_open(&self, cid: int) -> bool {
        self.circuits@[cid].initiator_open
    }

    /// Whether the accepting side of circuit `cid` is still open.
    pub closed spec fn acceptor_open(&self, cid: int) -> bool {
        self.circuits@[cid].acceptor_open
    }

    /// Whether an active open to `addr` succeeds: the address must be this
    /// node's (only the local fabric is reachable in-process), some socket
    /// must listen on the port, and its backlog must have room.
    pub open spec fn can_connect(&self, addr: CspConnAddress) -> bool {
        &&& addr.address == self.local_address()
        &&& self.listener_sid(addr.port) >= 0
        &&& self.socket_pending(self.listener_sid(addr.port)).len() < self.backlog_limit()
    }

    /// Internal consistency: a positive payload size, a pool counter within
    /// the pool, and every pending circuit id in range.
    pub closed spec fn wf(&self) -> bool {
        &&& self.config.buffer_data_size > 0
        &&& self.buffers_free <= self.config.buffers
        &&& forall|s: int, j: int|
            0 <= s < self.sockets@.len() && 0 <= j < self.sockets@[s].pending@.len() ==> (
            #[trigger] self.sockets@[s].pending@[j]) < self.circuits@.len()
    }
}

/// A consistent instance never counts more free buffers than its pool
/// holds.
pub proof fn lemma_pool_bound(net: LibCspInstance)
    requires
        net.wf(),
    ensures
        net.pool_free() <= net.pool_size(),
        net.max_payload() > 0,
{
}

/// In a consistent instance, every circuit id pending on a socket names an
/// existing circuit.
pub proof fn lemma_wf_pending_bound(net: LibCspInstance, sid: int)
    requires
        net.wf(),
        0 <= sid < net.socket_count(),
    ensures
        forall|k: int|
            0 <= k < net.socket_pending(sid).len() ==> (#[trigger] net.socket_pending(sid)[k])
                < net.circuit_count(),
{
}

/// The payload parts of a packet queue view.
pub open spec fn payloads_of(q: Seq<(CspId, Seq<u8>)>) -> Seq<Seq<u8>> {
    q.map_values(|p: (CspId, Seq<u8>)| p.1)
}

/// The identifier a packet sent on circuit `cid` carries: the circuit's
/// priority and its two endpoints, source and destination depending on the
/// direction of travel.
pub open spec fn circuit_send_id(net: LibCspInstance, cid: int, to_acceptor: bool) -> CspId {
    if to_acceptor {
        CspId {
            priority: net.circuit_priority(cid),
            flags: 0,
            src: net.circuit_initiator(cid).address,
            dst: net.circuit_target(cid).address,
            dport: net.circuit_target(cid).port,
            sport: net.circuit_initiator(cid).port,
        }
    } else {
        CspId {
            priority: net.circuit_priority(cid),
            flags: 0,
            src: net.circuit_target(cid).address,
            dst: net.circuit_initiator(cid).address,
            dport: net.circuit_initiator(cid).port,
            sport: net.circuit_target(cid).port,
        }
    }
}

/// The configuration, routes, debug channels and ephemeral counter agree.
pub open spec fn admin_eq(a: LibCspInstance, b: LibCspInstance) -> bool {
    &&& b.cfg() == a.cfg()
    &&& b.routes_view() == a.routes_view()
    &&& b.debug_view() == a.debug_view()
    &&& b.next_eph() == a.next_eph()
}

/// The socket table agrees.
pub open spec fn sockets_eq(a: LibCspInstance, b: LibCspInstance) -> bool {
    &&& b.socket_count() == a.socket_count()
    &&& forall|s: int|
        0 <= s < a.socket_count() ==> #[trigger] b.socket_port(s) == a.socket_port(s)
    &&& forall|s: int|
        0 <= s < a.socket_count() ==> #[trigger] b.socket_open(s) == a.socket_open(s)
    &&& forall|s: int|
        0 <= s < a.socket_count() ==> #[trigger] b.socket_pending(s) == a.socket_pending(s)
    &&& forall|p: u8| #[trigger] b.port_taken(p) == a.port_taken(p)
    &&& forall|p: u8| #[trigger] b.listener_sid(p) == a.listener_sid(p)
}

/// Every circuit keeps its endpoints and priority.
pub open spec fn circuit_ids_eq(a: LibCspInstance, b: LibCspInstance) -> bool {
    &&& b.circuit_count() == a.circuit_count()
    &&& forall|j: int|
        0 <= j < a.circuit_count() ==> #[trigger] b.circuit_initiator(j) == a.circuit_initiator(j)
    &&& forall|j: int|
        0 <= j < a.circuit_count() ==> #[trigger] b.circuit_target(j) == a.circuit_target(j)
    &&& forall|j: int|
        0 <= j < a.circuit_count() ==> #[trigger] b.circuit_priority(j) == a.circuit_priority(j)
}

/// Every circuit but `cid` keeps its queues and open flags.
pub open spec fn queues_eq_except(a: LibCspInstance, b: LibCspInstance, cid: int) -> bool {
    &&& forall|j: int|
        0 <= j < a.circuit_count() && j != cid ==> #[trigger] b.inbound(j) == a.inbound(j)
    &&& forall|j: int|
        0 <= j < a.circuit_count() && j != cid ==> #[trigger] b.outbound(j) == a.outbound(j)
    &&& forall|j: int|
        0 <= j < a.circuit_count() && j != cid ==> #[trigger] b.initiator_open(j) == a.initiator_open(
            j,
        )
    &&& forall|j: int|
        0 <= j < a.circuit_count() && j != cid ==> #[trigger] b.acceptor_open(j) == a.acceptor_open(
            j,
        )
}

/// Everything agrees except possibly the free-buffer counter.
pub open spec fn same_fabric_except_pool(a: LibCspInstance, b: LibCspInstance) -> bool {
    &&& admin_eq(a, b)
    &&& sockets_eq(a, b)
    &&& circuit_ids_eq(a, b)
    &&& queues_eq_except(a, b, -1)
}

/// Everything agrees except possibly the pool counter and the queues and
/// flags of circuit `cid`.
pub open spec fn same_fabric_except_circuit(a: LibCspInstance, b: LibCspInstance, cid: int) -> bool {
    &&& admin_eq(a, b)
    &&& sockets_eq(a, b)
    &&& circuit_ids_eq(a, b)
    &&& queues_eq_except(a, b, cid)
}

impl LibCspInstance {
    /// How many buffers are free in the pool right now.
    pub fn buffers_free(&self) -> (r: u16)
        ensures
            r == self.pool_free(),
    {
        self.buffers_free
    }

    /// The configuration the instance was built with.
    pub fn config(&self) -> (r: &LibCspConfig)
        ensures
            *r == self.cfg(),
    {
        &self.config
    }

    /// Registers a route through the given interface in the route table.
    /// Routes are only ever added in this design; the underlying stack
    /// cannot tear interfaces down.
    pub fn add_interface_route(&mut self, address: Route, interface: CspInterface) -> (r: Result<
        (),
        CspError,
    >)
        requires
            old(self).wf(),
        ensures
            final(self).wf(),
            r is Ok,
            final(self).routes_view() == old(self).routes_view().push((address, interface)),
            final(self).cfg() == old(self).cfg(),
            final(self).debug_view() == old(self).debug_view(),
            final(self).next_eph() == old(self).next_eph(),
            final(self).pool_free() == old(self).pool_free(),
            sockets_eq(*old(self), *final(self)),
            circuit_ids_eq(*old(self), *final(self)),
            queues_eq_except(*old(self), *final(self), -1),
    {
        self.routes.push((address, interface));
        Ok(())
    }

    /// Gives one buffer back to the pool; the counter never passes the
    /// pool's size.
    pub(crate) fn release_buffer(&mut self)
        requires
            old(self).wf(),
        ensures
            final(self).wf(),
            final(self).pool_free() == min_of(
                old(self).pool_free() + 1,
                old(self).pool_size() as int,
            ),
            same_fabric_except_pool(*old(self), *final(self)),
    {
        if self.buffers_free < self.config.buffers {
            self.buffers_free = self.buffers_free + 1;
        }
    }

    /// Sends `data` as one packet on circuit `cid`, toward the acceptor or
    /// toward the initiator: refuses a payload over the buffer size, takes
    /// one buffer from the pool or fails if none is free, and queues the
    /// packet.
    pub(crate) fn send_on_circuit(&mut self, cid: usize, to_acceptor: bool, data: &[u8]) -> (r:
        Result<(), CspError>)
        requires
            old(self).wf(),
            cid < old(self).circuit_count(),
        ensures
            final(self).wf(),
            data@.len() > old(self).max_payload() ==> r is Err && r->Err_0.kind
                == CspErrorKind::Inval && *final(self) == *old(self),
            data@.len() <= old(self).max_payload() && old(self).pool_free() == 0 ==> r is Err
                && r->Err_0.kind == CspErrorKind::NoBuffersAvailable && *final(self) == *old(self),
            data@.len() <= old(self).max_payload() && old(self).pool_free() > 0 ==> {
                &&& r is Ok
                &&& final(self).pool_free() == old(self).pool_free() - 1
                &&& same_fabric_except_circuit(*old(self), *final(self), cid as int)
                &&& to_acceptor ==> final(self).inbound(cid as int) == old(self).inbound(
                    cid as int,
                ).push((circuit_send_id(*old(self), cid as int, true), data@))
                &&& to_acceptor ==> final(self).outbound(cid as int) == old(self).outbound(
                    cid as int,
                )
                &&& !to_acceptor ==> final(self).outbound(cid as int) == old(self).outbound(
                    cid as int,
                ).push((circuit_send_id(*old(self), cid as int, false), data@))
                &&& !to_acceptor ==> final(self).inbound(cid as int) == old(self).inbound(
                    cid as int,
                )
                &&& final(self).initiator_open(cid as int) == old(self).initiator_open(cid as int)
                &&& final(self).acceptor_open(cid as int) == old(self).acceptor_open(cid as int)
            },
            r is Ok <==> data@.len() <= old(self).max_payload() && old(self).pool_free() > 0,
    {
        if data.len() > self.config.buffer_data_size as usize {
            return Err(
                CspError::new(
                    CspErrorKind::Inval,
                    "data length exceeds the maximum buffer size".to_string(),
                ),
            );
        }
        if self.buffers_free == 0 {
            return Err(
                CspError::new(
                    CspErrorKind::NoBuffersAvailable,
                    "no buffers left in the buffer pool".to_string(),
                ),
            );
        }
        self.buffers_free = self.buffers_free - 1;
        let ghost old_self = *self;
        let circuit = &mut self.circuits[cid];
        let id = if to_acceptor {
            CspId {
                priority: circuit.priority,
                flags: 0,
                src: circuit.initiator.address,
                dst: circuit.target.address,
                dport: circuit.target.port,
                sport: circuit.initiator.port,
            }
        } else {
            CspId {
                priority: circuit.priority,
                flags: 0,
                src: circuit.target.address,
                dst: circuit.initiator.address,
                dport: circuit.initiator.port,
                sport: circuit.target.port,
            }
        };
        let packet = CspPacket { id, data: vstd::slice::slice_to_vec(data) };
        if to_acceptor {
            circuit.to_acceptor.push(packet);
        } else {
            circuit.to_initiator.push(packet);
        }
        proof {
            assert(self.circuits@ =~= old_self.circuits@.update(
                cid as int,
                self.circuits@[cid as int],
            ));
            if to_acceptor {
                assert(self.inbound(cid as int) =~= old_self.inbound(cid as int).push(
                    (circuit_send_id(old_self, cid as int, true), data@),
                ));
            } else {
                assert(self.outbound(cid as int) =~= old_self.outbound(cid as int).push(
                    (circuit_send_id(old_self, cid as int, false), data@),
                ));
            }
        }
        Ok(())
    }

    /// Takes the oldest packet off one queue of circuit `cid`: the queue
    /// toward the acceptor if `acceptor_side`, else the queue toward the
    /// initiator. `None` means the queue is empty — in a fabric held by one
    /// thread, that is what a read timeout looks like.
    pub(crate) fn read_from_circuit(&mut self, cid: usize, acceptor_side: bool) -> (r: Option<
        CspPacket,
    >)
        requires
            old(self).wf(),
            cid < old(self).circuit_count(),
        ensures
            final(self).wf(),
            final(self).pool_free() == old(self).pool_free(),
            same_fabric_except_circuit(*old(self), *final(self), cid as int),
            final(self).initiator_open(cid as int) == old(self).initiator_open(cid as int),
            final(self).acceptor_open(cid as int) == old(self).acceptor_open(cid as int),
            r is None ==> *final(self) == *old(self),
            acceptor_side ==> {
                &&& (r is None <==> old(self).inbound(cid as int).len() == 0)
                &&& final(self).outbound(cid as int) == old(self).outbound(cid as int)
                &&& r is Some ==> (r->Some_0.id_spec(), r->Some_0.payload()) == old(self).inbound(
                    cid as int,
                )[0] && final(self).inbound(cid as int) == old(self).inbound(cid as int).skip(1)
            },
            !acceptor_side ==> {
                &&& (r is None <==> old(self).outbound(cid as int).len() == 0)
                &&& final(self).inbound(cid as int) == old(self).inbound(cid as int)
                &&& r is Some ==> (r->Some_0.id_spec(), r->Some_0.payload()) == old(self).outbound(
                    cid as int,
                )[0] && final(self).outbound(cid as int) == old(self).outbound(cid as int).skip(1)
            },
    {
        let queue_empty = if acceptor_side {
            self.circuits[cid].to_acceptor.len() == 0
        } else {
            self.circuits[cid].to_initiator.len() == 0
        };
        if queue_empty {
            proof {
                if acceptor_side {
                    assert(self.inbound(cid as int).len() == 0);
                } else {
                    assert(self.outbound(cid as int).len() == 0);
                }
            }
            return None;
        }
        let ghost old_self = *self;
        let circuit = &mut self.circuits[cid];
        let r = if acceptor_side {
            Some(circuit.to_acceptor.remove(0))
        } else {
            Some(circuit.to_initiator.remove(0))
        };
        proof {
            assert(self.circuits@ =~= old_self.circuits@.update(
                cid as int,
                self.circuits@[cid as int],
            ));
            if acceptor_side {
                if old_self.inbound(cid as int).len() > 0 {
                    assert(self.inbound(cid as int) =~= old_self.inbound(cid as int).skip(1));
                }
            } else {
                if old_self.outbound(cid as int).len() > 0 {
                    assert(self.outbound(cid as int) =~= old_self.outbound(cid as int).skip(1));
                }
            }
        }
        r
    }

    /// Closes one side of circuit `cid`: the packets still queued toward
    /// that side go back to the pool and the side is marked closed. Closing
    /// a side twice has no further effect.
    pub(crate) fn close_circuit_side(&mut self, cid: usize, acceptor_side: bool)
        requires
            old(self).wf(),
            cid < old(self).circuit_count(),
        ensures
            final(self).wf(),
            same_fabric_except_circuit(*old(self), *final(self), cid as int),
            acceptor_side ==> {
                &&& final(self).pool_free() == min_of(
                    old(self).pool_free() + old(self).inbound(cid as int).len(),
                    old(self).pool_size() as int,
                )
                &&& final(self).inbound(cid as int) == Seq::<(CspId, Seq<u8>)>::empty()
                &&& final(self).outbound(cid as int) == old(self).outbound(cid as int)
                &&& !final(self).acceptor_open(cid as int)
                &&& final(self).initiator_open(cid as int) == old(self).initiator_open(cid as int)
            },
            !acceptor_side ==> {
                &&& final(self).pool_free() == min_of(
                    old(self).pool_free() + old(self).outbound(cid as int).len(),
                    old(self).pool_size() as int,
                )
                &&& final(self).outbound(cid as int) == Seq::<(CspId, Seq<u8>)>::empty()
                &&& final(self).inbound(cid as int) == old(self).inbound(cid as int)
                &&& !final(self).initiator_open(cid as int)
                &&& final(self).acceptor_open(cid as int) == old(self).acceptor_open(cid as int)
            },
    {
        let ghost old_self = *self;
        let mut freed: usize = 0;
        {
            let circuit = &mut self.circuits[cid];
            if acceptor_side {
                freed = circuit.to_acceptor.len();
                circuit.to_acceptor.clear();
                circuit.acceptor_open = false;
            } else {
                freed = circuit.to_initiator.len();
                circuit.to_initiator.clear();
                circuit.initiator_open = false;
            }
        }
        proof {
            assert(self.circuits@ =~= old_self.circuits@.update(
                cid as int,
                self.circuits@[cid as int],
            ));
        }
        let cap: u16 = self.config.buffers;
        let room: u16 = cap - self.buffers_free;
        if freed >= room as usize {
            self.buffers_free = cap;
        } else {
            self.buffers_free = self.buffers_free + freed as u16;
        }
        proof {
            if acceptor_side {
                assert(self.inbound(cid as int) =~= Seq::<(CspId, Seq<u8>)>::empty());
            } else {
                assert(self.outbound(cid as int) =~= Seq::<(CspId, Seq<u8>)>::empty());
            }
        }
    }
}

/// Appending a socket leaves every earlier match in place; a new match can
/// only be the appended socket itself.
proof fn lemma_listener_from_push(sockets: Seq<SocketState>, x: SocketState, port: u8, i: int)
    requires
        0 <= i <= sockets.len(),
    ensures
        listener_from(sockets.push(x), port, i) == if listener_from(sockets, port, i) >= 0 {
            listener_from(sockets, port, i)
        } else if x.open && x.port == port {
            sockets.len() as int
        } else {
            -1
        },
    decreases sockets.len() - i,
{
    if i == sockets.len() {
        assert(sockets.push(x)[i] == x);
        assert(listener_from(sockets, port, i) == -1);
        assert(listener_from(sockets.push(x), port, i + 1) == -1);
    } else {
        assert(sockets.push(x)[i] == sockets[i]);
        lemma_listener_from_push(sockets, x, port, i + 1);
    }
}

/// The listener scan reads only each socket's port and open flag.
proof fn lemma_listener_from_ports_eq(s1: Seq<SocketState>, s2: Seq<SocketState>, port: u8, i: int)
    requires
        s1.len() == s2.len(),
        forall|k: int|
            0 <= k < s1.len() ==> (#[trigger] s2[k]).open == s1[k].open && s2[k].port == s1[k].port,
    ensures
        listener_from(s1, port, i) == listener_from(s2, port, i),
    decreases s1.len() - i,
{
    if 0 <= i < s1.len() {
        lemma_listener_from_ports_eq(s1, s2, port, i + 1);
    }
}

impl LibCspInstance {
    /// The first open socket bound to exactly `port`, if any.
    fn scan_port(&self, port: u8) -> (r: Option<usize>)
        ensures
            r is Some <==> listener_from(self.sockets@, port, 0) >= 0,
            r is Some ==> r->Some_0 == listener_from(self.sockets@, port, 0) && (r->Some_0 as int)
                < self.socket_count(),
    {
        let n = self.sockets.len();
        let mut i: usize = 0;
        while i < n
            invariant
                i <= n,
                n == self.sockets@.len(),
                listener_from(self.sockets@, port, 0) == listener_from(
                    self.sockets@,
                    port,
                    i as int,
                ),
            decreases n - i,
        {
            let matches_here = { self.sockets[i].open && self.sockets[i].port == port };
            if matches_here {
                return Some(i);
            }
            i = i + 1;
        }
        None
    }

    /// Binds a new listening socket to `port_value` (a concrete port or the
    /// "any port" sentinel). Fails with `Used` when an open socket already
    /// holds that value.
    pub(crate) fn bind_socket(&mut self, port_value: u8) -> (r: Result<usize, CspError>)
        requires
            old(self).wf(),
        ensures
            final(self).wf(),
            r is Ok <==> !old(self).port_taken(port_value),
            r is Err ==> *final(self) == *old(self) && r->Err_0.kind == CspErrorKind::Used,
            r is Ok ==> {
                &&& r->Ok_0 as int == old(self).socket_count()
                &&& final(self).socket_count() == old(self).socket_count() + 1
                &&& final(self).socket_port(old(self).socket_count()) == port_value
                &&& final(self).socket_open(old(self).socket_count())
                &&& final(self).socket_pending(old(self).socket_count()) == Seq::<usize>::empty()
                &&& forall|s: int|
                    0 <= s < old(self).socket_count() ==> #[trigger] final(self).socket_port(s)
                        == old(self).socket_port(s)
                &&& forall|s: int|
                    0 <= s < old(self).socket_count() ==> #[trigger] final(self).socket_open(s)
                        == old(self).socket_open(s)
                &&& forall|s: int|
                    0 <= s < old(self).socket_count() ==> #[trigger] final(self).socket_pending(s)
                        == old(self).socket_pending(s)
                &&& forall|p: u8| #[trigger]
                    final(self).port_taken(p) <==> (old(self).port_taken(p) || p == port_value)
                &&& final(self).listener_sid(port_value) == old(self).socket_count()
                &&& forall|p: u8|
                    old(self).port_taken(p) ==> #[trigger] final(self).listener_sid(p) == old(
                        self,
                    ).listener_sid(p)
                &&& port_value == ANY_PORT ==> forall|p: u8|
                    !old(self).port_taken(p) ==> #[trigger] final(self).listener_sid(p) == old(
                        self,
                    ).socket_count()
                &&& admin_eq(*old(self), *final(self))
                &&& circuit_ids_eq(*old(self), *final(self))
                &&& queues_eq_except(*old(self), *final(self), -1)
                &&& final(self).pool_free() == old(self).pool_free()
            },
    {
        let taken = self.scan_port(port_value);
        if taken.is_some() {
            return Err(CspError::new(CspErrorKind::Used, "port is already bound".to_string()));
        }
        let ghost old_self = *self;
        let sid = self.sockets.len();
        self.sockets.push(SocketState { port: port_value, open: true, pending: Vec::new() });
        proof {
            assert(self.sockets@ =~= old_self.sockets@.push(self.sockets@[sid as int]));
            assert forall|p: u8| #[trigger]
                self.port_taken(p) <==> (old_self.port_taken(p) || p == port_value) by {
                lemma_listener_from_push(
                    old_self.sockets@,
                    self.sockets@[sid as int],
                    p,
                    0,
                );
            }
            lemma_listener_from_push(
                old_self.sockets@,
                self.sockets@[sid as int],
                port_value,
                0,
            );
            lemma_listener_from_push(old_self.sockets@, self.sockets@[sid as int], ANY_PORT, 0);
            assert forall|p: u8|
                old_self.port_taken(p) implies #[trigger] self.listener_sid(p)
                == old_self.listener_sid(p) by {
                lemma_listener_from_push(old_self.sockets@, self.sockets@[sid as int], p, 0);
            }
            if port_value == ANY_PORT {
                assert forall|p: u8|
                    !old_self.port_taken(p) implies #[trigger] self.listener_sid(p)
                    == old_self.socket_count() by {
                    lemma_listener_from_push(old_self.sockets@, self.sockets@[sid as int], p, 0);
                }
            }
            assert(self.socket_pending(sid as int) =~= Seq::<usize>::empty());
        }
        Ok(sid)
    }

    /// Opens an active circuit to `addr` with the given priority. The
    /// circuit lands in the pending queue of the listener that `addr.port`
    /// reaches; when nothing listens there, the address is not this node's,
    /// or the listener's backlog is full, the open fails as the underlying
    /// connect does when it hands back no circuit.
    pub(crate) fn connect_circuit(&mut self, addr: CspConnAddress, priority: CspConnPriority) -> (r:
        Result<usize, CspError>)
        requires
            old(self).wf(),
        ensures
            final(self).wf(),
            r is Ok <==> old(self).can_connect(addr),
            r is Err ==> *final(self) == *old(self) && r->Err_0.kind == CspErrorKind::ConnectFailed,
            r is Ok ==> {
                &&& r->Ok_0 as int == old(self).circuit_count()
                &&& final(self).circuit_count() == old(self).circuit_count() + 1
                &&& final(self).circuit_initiator(old(self).circuit_count()) == (CspConnAddress {
                    address: old(self).local_address(),
                    port: old(self).next_eph(),
                })
                &&& final(self).circuit_target(old(self).circuit_count()) == addr
                &&& final(self).circuit_priority(old(self).circuit_count()) == priority
                &&& final(self).inbound(old(self).circuit_count()) == Seq::<(
                    CspId,
                    Seq<u8>,
                )>::empty()
                &&& final(self).outbound(old(self).circuit_count()) == Seq::<(
                    CspId,
                    Seq<u8>,
                )>::empty()
                &&& final(self).initiator_open(old(self).circuit_count())
                &&& final(self).acceptor_open(old(self).circuit_count())
                &&& forall|j: int|
                    0 <= j < old(self).circuit_count() ==> #[trigger] final(self).circuit_initiator(j) == old(self).circuit_initiator(j)
                &&& forall|j: int|
                    0 <= j < old(self).circuit_count() ==> #[trigger] final(self).circuit_target(
                        j,
                    ) == old(self).circuit_target(j)
                &&& forall|j: int|
                    0 <= j < old(self).circuit_count() ==> #[trigger] final(self).circuit_priority(j) == old(self).circuit_priority(j)
                &&& forall|j: int|
                    0 <= j < old(self).circuit_count() ==> #[trigger] final(self).inbound(j)
                        == old(self).inbound(j)
                &&& forall|j: int|
                    0 <= j < old(self).circuit_count() ==> #[trigger] final(self).outbound(j)
                        == old(self).outbound(j)
                &&& forall|j: int|
                    0 <= j < old(self).circuit_count() ==> #[trigger] final(self).initiator_open(
                        j,
                    ) == old(self).initiator_open(j)
                &&& forall|j: int|
                    0 <= j < old(self).circuit_count() ==> #[trigger] final(self).acceptor_open(
                        j,
                    ) == old(self).acceptor_open(j)
                &&& final(self).socket_count() == old(self).socket_count()
                &&& final(self).socket_pending(old(self).listener_sid(addr.port)) == old(self).socket_pending(old(self).listener_sid(addr.port)).push(r->Ok_0)
                &&& forall|s: int|
                    0 <= s < old(self).socket_count() && s != old(self).listener_sid(addr.port)
                        ==> #[trigger] final(self).socket_pending(s) == old(self).socket_pending(s)
                &&& forall|s: int|
                    0 <= s < old(self).socket_count() ==> #[trigger] final(self).socket_port(s)
                        == old(self).socket_port(s)
                &&& forall|s: int|
                    0 <= s < old(self).socket_count() ==> #[trigger] final(self).socket_open(s)
                        == old(self).socket_open(s)
                &&& forall|p: u8| #[trigger] final(self).port_taken(p) == old(self).port_taken(p)
                &&& forall|p: u8| #[trigger]
                    final(self).listener_sid(p) == old(self).listener_sid(p)
                &&& final(self).cfg() == old(self).cfg()
                &&& final(self).routes_view() == old(self).routes_view()
                &&& final(self).debug_view() == old(self).debug_view()
                &&& final(self).pool_free() == old(self).pool_free()
                &&& final(self).next_eph() == (if old(self).next_eph() >= EPHEMERAL_PORT_LAST {
                    EPHEMERAL_PORT_FIRST
                } else {
                    (old(self).next_eph() + 1) as u8
                })
            },
    {
        if addr.address != self.config.address as u16 {
            return Err(CspError::new(CspErrorKind::ConnectFailed, "failed to connect".to_string()));
        }
        let exact = self.scan_port(addr.port);
        let lid_opt = match exact {
            Some(sid) => Some(sid),
            None => self.scan_port(ANY_PORT),
        };
        let lid = match lid_opt {
            Some(sid) => sid,
            None => {
                return Err(
                    CspError::new(CspErrorKind::ConnectFailed, "failed to connect".to_string()),
                );
            },
        };
        proof {
            assert(lid as int == self.listener_sid(addr.port));
        }
        if self.sockets[lid].pending.len() >= self.config.connection_backlog {
            return Err(CspError::new(CspErrorKind::ConnectFailed, "failed to connect".to_string()));
        }
        let ghost old_self = *self;
        let cid = self.circuits.len();
        let sport = self.next_ephemeral;
        self.next_ephemeral = if sport >= EPHEMERAL_PORT_LAST {
            EPHEMERAL_PORT_FIRST
        } else {
            sport + 1
        };
        let initiator = CspConnAddress { address: self.config.address as u16, port: sport };
        self.circuits.push(
            CircuitState {
                initiator,
                target: addr,
                priority,
                to_acceptor: Vec::new(),
                to_initiator: Vec::new(),
                initiator_open: true,
                acceptor_open: true,
            },
        );
        let sock = &mut self.sockets[lid];
        sock.pending.push(cid);
        proof {
            assert(self.circuits@ =~= old_self.circuits@.push(self.circuits@[cid as int]));
            assert(self.sockets@ =~= old_self.sockets@.update(
                lid as int,
                self.sockets@[lid as int],
            ));
            assert forall|p: u8| #[trigger] self.port_taken(p) == old_self.port_taken(p) by {
                lemma_listener_from_ports_eq(old_self.sockets@, self.sockets@, p, 0);
            }
            assert forall|p: u8| #[trigger] self.listener_sid(p) == old_self.listener_sid(
                p,
            ) by {
                lemma_listener_from_ports_eq(old_self.sockets@, self.sockets@, p, 0);
                lemma_listener_from_ports_eq(old_self.sockets@, self.sockets@, ANY_PORT, 0);
            }
            assert(self.inbound(cid as int) =~= Seq::<(CspId, Seq<u8>)>::empty());
            assert(self.outbound(cid as int) =~= Seq::<(CspId, Seq<u8>)>::empty());
            assert(self.socket_pending(lid as int) =~= old_self.socket_pending(lid as int).push(
                cid,
            ));
        }
        Ok(cid)
    }

    /// Takes the oldest circuit waiting on socket `sid`, if the socket
    /// exists, is open and has one; `None` otherwise — in a fabric held by
    /// one thread, that is what an accept timeout looks like.
    pub(crate) fn accept_circuit(&mut self, sid: usize) -> (r: Option<usize>)
        requires
            old(self).wf(),
        ensures
            final(self).wf(),
            r is None <==> !(sid < old(self).socket_count() && old(self).socket_open(sid as int)
                && old(self).socket_pending(sid as int).len() > 0),
            r is None ==> *final(self) == *old(self),
            r is Some ==> {
                &&& r->Some_0 == old(self).socket_pending(sid as int)[0]
                &&& (r->Some_0 as int) < old(self).circuit_count()
                &&& final(self).socket_pending(sid as int) == old(self).socket_pending(
                    sid as int,
                ).skip(1)
                &&& final(self).socket_count() == old(self).socket_count()
                &&& forall|s: int|
                    0 <= s < old(self).socket_count() && s != sid ==> #[trigger] final(self).socket_pending(s) == old(self).socket_pending(s)
                &&& forall|s: int|
                    0 <= s < old(self).socket_count() ==> #[trigger] final(self).socket_port(s)
                        == old(self).socket_port(s)
                &&& forall|s: int|
                    0 <= s < old(self).socket_count() ==> #[trigger] final(self).socket_open(s)
                        == old(self).socket_open(s)
                &&& forall|p: u8| #[trigger] final(self).port_taken(p) == old(self).port_taken(p)
                &&& forall|p: u8| #[trigger]
                    final(self).listener_sid(p) == old(self).listener_sid(p)
                &&& admin_eq(*old(self), *final(self))
                &&& circuit_ids_eq(*old(self), *final(self))
                &&& queues_eq_except(*old(self), *final(self), -1)
                &&& final(self).pool_free() == old(self).pool_free()
            },
    {
        if sid >= self.sockets.len() {
            return None;
        }
        let can = { self.sockets[sid].open && self.sockets[sid].pending.len() > 0 };
        if !can {
            return None;
        }
        let ghost old_self = *self;
        let sock = &mut self.sockets[sid];
        let cid = sock.pending.remove(0);
        proof {
            assert(self.sockets@ =~= old_self.sockets@.update(
                sid as int,
                self.sockets@[sid as int],
            ));
            assert(old_self.sockets@[sid as int].pending@[0] == cid);
            assert(self.socket_pending(sid as int) =~= old_self.socket_pending(sid as int).skip(
                1,
            ));
            assert forall|p: u8| #[trigger] self.port_taken(p) == old_self.port_taken(p) by {
                lemma_listener_from_ports_eq(old_self.sockets@, self.sockets@, p, 0);
            }
            assert forall|p: u8| #[trigger] self.listener_sid(p) == old_self.listener_sid(
                p,
            ) by {
                lemma_listener_from_ports_eq(old_self.sockets@, self.sockets@, p, 0);
                lemma_listener_from_ports_eq(old_self.sockets@, self.sockets@, ANY_PORT, 0);
            }
        }
        Some(cid)
    }
}

impl LibCspInstance {
    /// How many circuits wait to be accepted on socket `sid`; zero for a
    /// slot that does not exist.
    pub(crate) fn socket_pending_len(&self, sid: usize) -> (r: usize)
        ensures
            sid < self.socket_count() ==> r == self.socket_pending(sid as int).len(),
            sid >= self.socket_count() ==> r == 0,
    {
        if sid < self.sockets.len() {
            self.sockets[sid].pending.len()
        } else {
            0
        }
    }

    /// Whether socket `sid` exists and still listens.
    pub(crate) fn socket_listening(&self, sid: usize) -> (r: bool)
        ensures
            r == (sid < self.socket_count() && self.socket_open(sid as int)),
    {
        sid < self.sockets.len() && self.sockets[sid].open
    }

    /// The two endpoints of circuit `cid`: the initiator's, then the
    /// target's.
    pub(crate) fn circuit_endpoints(&self, cid: usize) -> (r: (CspConnAddress, CspConnAddress))
        requires
            cid < self.circuit_count(),
        ensures
            r.0 == self.circuit_initiator(cid as int),
            r.1 == self.circuit_target(cid as int),
    {
        let c = &self.circuits[cid];
        (c.initiator, c.target)
    }
}

/// Builds the one stack instance of a process. The underlying stack is
/// configured exactly once per process; keeping to that is the caller's
/// duty (a process-wide guard belongs to the unverified rim around this
/// library, since verified code holds no global state).
pub struct LibCspBuilder {
    debug_channels: Vec<CspDebugChannel>,
    config: LibCspConfig,
}

impl LibCspBuilder {
    /// The configuration the instance will be built with.
    pub closed spec fn config_spec(&self) -> LibCspConfig {
        self.config
    }

    /// The debug channels that will be enabled.
    pub closed spec fn debug_spec(&self) -> Seq<CspDebugChannel> {
        self.debug_channels@
    }

    /// Starts a build with the given configuration; only the error channel
    /// is enabled until `debug_channels` says otherwise.
    pub fn new(config: LibCspConfig) -> (r: LibCspBuilder)
        ensures
            r.config_spec() == config,
            r.debug_spec() == crate::config::all_channels().take(1),
    {
        LibCspBuilder { debug_channels: CspDebugChannel::up_to_error(), config }
    }

    /// Replaces the debug channels the instance enables. Each channel
    /// counts alone: enabling `Info` without `Error` shows informational
    /// messages only.
    pub fn debug_channels(self, channels: Vec<CspDebugChannel>) -> (r: LibCspBuilder)
        ensures
            r.config_spec() == self.config_spec(),
            r.debug_spec() == channels@,
    {
        LibCspBuilder { debug_channels: channels, config: self.config }
    }

    /// Builds the instance: a fresh fabric with a full buffer pool and
    /// empty socket and circuit tables. The buffer payload size must be
    /// positive; a pool of zero-byte buffers could carry no traffic.
    pub fn build(self) -> (r: LibCspInstance)
        requires
            self.config_spec().buffer_data_size > 0,
        ensures
            r.wf(),
            r.cfg() == self.config_spec(),
            r.debug_view() == self.debug_spec(),
            r.pool_free() == self.config_spec().buffers,
            r.circuit_count() == 0,
            r.socket_count() == 0,
            forall|p: u8| !r.port_taken(p),
            forall|p: u8| #[trigger] r.listener_sid(p) == -1,
            r.routes_view() == Seq::<(Route, CspInterface)>::empty(),
            r.next_eph() == EPHEMERAL_PORT_FIRST,
    {
        let LibCspBuilder { debug_channels, config } = self;
        let free = config.buffers;
        let r = LibCspInstance {
            config,
            debug_channels,
            buffers_free: free,
            next_ephemeral: EPHEMERAL_PORT_FIRST,
            routes: Vec::new(),
            sockets: Vec::new(),
            circuits: Vec::new(),
        };
        proof {
            assert(r.routes_view() =~= Seq::<(Route, CspInterface)>::empty());
        }
        r
    }
}

} // verus!
