//! Listening sockets, accept, and port dispatch.

use vstd::prelude::*;
use crate::connection::CspConnection;
use crate::errors::{CspError, CspErrorKind};
use crate::id::is_service_port_spec;
use crate::instance::{
    admin_eq, circuit_ids_eq, queues_eq_except, LibCspInstance,
};
use crate::port::{CspPort, ANY_PORT};

verus! {

/// The read timeout, in milliseconds, used while draining a service
/// connection.
pub const DEFAULT_SERVICE_TIMEOUT_MS: u32 = 1000;

/// The poll interval, in milliseconds, of the blocking accept loop.
pub const ACCEPT_POLL_MS: u32 = 1000;

/// A listening socket: accepts the circuits that active opens direct at
/// its port. It lives as long as its instance.
#[derive(Debug)]
pub struct CspSocket {
    pub(crate) sid: usize,
    pub(crate) service_timeout_ms: u32,
}

impl CspSocket {
    /// The socket-table slot this handle stands for.
    pub closed spec fn sid_spec(&self) -> int {
        self.sid as int
    }

    /// The service read timeout handed to accepted connections.
    pub closed spec fn service_timeout_spec(&self) -> u32 {
        self.service_timeout_ms
    }

    /// Whether this handle belongs to a socket of `net`.
    pub open spec fn attached(&self, net: LibCspInstance) -> bool {
        0 <= self.sid_spec() < net.socket_count()
    }

    /// Accepts the oldest waiting connection, or `None` when none arrives
    /// within the timeout: in a fabric held by one thread, no waiting
    /// circuit means `None` at once.
    pub fn accept_timeout(&self, net: &mut LibCspInstance, timeout_ms: u32) -> (r: Option<
        CspConnection,
    >)
        requires
            old(net).wf(),
        ensures
            final(net).wf(),
            r is None <==> !(self.sid_spec() < old(net).socket_count() && old(net).socket_open(
                self.sid_spec(),
            ) && old(net).socket_pending(self.sid_spec()).len() > 0),
            r is None ==> *final(net) == *old(net),
            r is Some ==> {
                &&& r->Some_0.attached(*final(net))
                &&& r->Some_0.cid_spec() == old(net).socket_pending(self.sid_spec())[0]
                &&& r->Some_0.src_spec() == old(net).circuit_initiator(r->Some_0.cid_spec())
                &&& r->Some_0.dst_spec() == old(net).circuit_target(r->Some_0.cid_spec())
                &&& final(net).socket_pending(self.sid_spec()) == old(net).socket_pending(
                    self.sid_spec(),
                ).skip(1)
                &&& final(net).socket_count() == old(net).socket_count()
                &&& forall|s: int|
                    0 <= s < old(net).socket_count() && s != self.sid_spec() ==> #[trigger] final(net).socket_pending(s) == old(net).socket_pending(s)
                &&& forall|s: int|
                    0 <= s < old(net).socket_count() ==> #[trigger] final(net).socket_open(s)
                        == old(net).socket_open(s)
                &&& forall|p: u8| #[trigger] final(net).port_taken(p) == old(net).port_taken(p)
                &&& admin_eq(*old(net), *final(net))
                &&& circuit_ids_eq(*old(net), *final(net))
                &&& queues_eq_except(*old(net), *final(net), -1)
                &&& final(net).pool_free() == old(net).pool_free()
            },
    {
        let _ = timeout_ms;
        match net.accept_circuit(self.sid) {
            None => None,
            Some(cid) => {
                let (src, dst) = net.circuit_endpoints(cid);
                let max_buffer_size = net.config().buffer_data_size;
                Some(CspConnection::attach(cid, src, dst, self.service_timeout_ms, max_buffer_size))
            },
        }
    }

    /// Accepts the oldest waiting connection, polling until one is there.
    /// In a fabric held by one thread a wait with nothing pending would
    /// never end, so a waiting circuit is required.
    pub fn accept(&self, net: &mut LibCspInstance) -> (r: CspConnection)
        requires
            old(net).wf(),
            self.sid_spec() < old(net).socket_count(),
            old(net).socket_open(self.sid_spec()),
            old(net).socket_pending(self.sid_spec()).len() > 0,
        ensures
            final(net).wf(),
            r.attached(*final(net)),
            r.cid_spec() == old(net).socket_pending(self.sid_spec())[0],
            r.src_spec() == old(net).circuit_initiator(r.cid_spec()),
            r.dst_spec() == old(net).circuit_target(r.cid_spec()),
            final(net).socket_pending(self.sid_spec()) == old(net).socket_pending(
                self.sid_spec(),
            ).skip(1),
            final(net).socket_count() == old(net).socket_count(),
            admin_eq(*old(net), *final(net)),
            circuit_ids_eq(*old(net), *final(net)),
            queues_eq_except(*old(net), *final(net), -1),
            final(net).pool_free() == old(net).pool_free(),
    {
        let got = self.accept_timeout(net, ACCEPT_POLL_MS);
        match got {
            Some(conn) => conn,
            None => {
                proof {
                    assert(false);
                }
                vstd::pervasive::unreached()
            },
        }
    }
}

impl LibCspInstance {
    /// Binds and starts listening on `port`. Fails with `Used` when an
    /// open socket already holds that port value.
    pub fn open_server_socket(&mut self, port: CspPort) -> (r: Result<CspSocket, CspError>)
        requires
            old(self).wf(),
        ensures
            final(self).wf(),
            r is Ok <==> !old(self).port_taken(port.value()),
            r is Err ==> *final(self) == *old(self) && r->Err_0.kind == CspErrorKind::Used,
            r is Ok ==> {
                &&& r->Ok_0.sid_spec() == old(self).socket_count()
                &&& r->Ok_0.attached(*final(self))
                &&& r->Ok_0.service_timeout_spec() == DEFAULT_SERVICE_TIMEOUT_MS
                &&& final(self).socket_count() == old(self).socket_count() + 1
                &&& final(self).socket_port(old(self).socket_count()) == port.value()
                &&& final(self).socket_open(old(self).socket_count())
                &&& final(self).socket_pending(old(self).socket_count()) == Seq::<usize>::empty()
                &&& forall|s: int|
                    0 <= s < old(self).socket_count() ==> #[trigger] final(self).socket_port(s)
                        == old(self).socket_port(s)
                &&& forall|s: int|
                    0 <= s < old(self).socket_count() ==> #[trigger] final(self).socket_open(s)
                        == old(self).socket_open(s)
                &&& forall|s: int|
                    0 <= s < old(self).socket_count() ==> #[trigger] final(self).socket_pending(s)
                        == old(self).socket_pending(s)
                &&& forall|p: u8| #[trigger]
                    final(self).port_taken(p) <==> (old(self).port_taken(p) || p == port.value())
                &&& final(self).listener_sid(port.value()) == old(self).socket_count()
                &&& forall|p: u8|
                    old(self).port_taken(p) ==> #[trigger] final(self).listener_sid(p) == old(
                        self,
                    ).listener_sid(p)
                &&& port.value() == ANY_PORT ==> forall|p: u8|
                    !old(self).port_taken(p) ==> #[trigger] final(self).listener_sid(p) == old(
                        self,
                    ).socket_count()
                &&& admin_eq(*old(self), *final(self))
                &&& circuit_ids_eq(*old(self), *final(self))
                &&& queues_eq_except(*old(self), *final(self), -1)
                &&& final(self).pool_free() == old(self).pool_free()
            },
    {
        match self.bind_socket(port.as_u8()) {
            Ok(sid) => Ok(CspSocket { sid, service_timeout_ms: DEFAULT_SERVICE_TIMEOUT_MS }),
            Err(e) => Err(e),
        }
    }

    /// Binds a socket to the "any port" sentinel and starts a dispatching
    /// server builder on it.
    pub fn server_socket_builder<H: CspPortHandler>(&mut self) -> (r: Result<
        CspSocketBuilder<H>,
        CspError,
    >)
        requires
            old(self).wf(),
        ensures
            final(self).wf(),
            r is Ok <==> !old(self).port_taken(ANY_PORT),
            r is Err ==> *final(self) == *old(self) && r->Err_0.kind == CspErrorKind::Used,
            r is Ok ==> {
                &&& r->Ok_0.ports_spec() == Seq::<u8>::empty()
                &&& !r->Ok_0.has_default_spec()
                &&& r->Ok_0.socket_spec().sid_spec() == old(self).socket_count()
                &&& r->Ok_0.socket_spec().attached(*final(self))
                &&& final(self).socket_count() == old(self).socket_count() + 1
                &&& final(self).socket_port(old(self).socket_count()) == ANY_PORT
                &&& final(self).socket_open(old(self).socket_count())
                &&& final(self).socket_pending(old(self).socket_count()) == Seq::<usize>::empty()
                &&& forall|p: u8|
                    !old(self).port_taken(p) ==> #[trigger] final(self).listener_sid(p) == old(
                        self,
                    ).socket_count()
                &&& forall|p: u8|
                    old(self).port_taken(p) ==> #[trigger] final(self).listener_sid(p) == old(
                        self,
                    ).listener_sid(p)
                &&& admin_eq(*old(self), *final(self))
                &&& circuit_ids_eq(*old(self), *final(self))
                &&& queues_eq_except(*old(self), *final(self), -1)
                &&& final(self).pool_free() == old(self).pool_free()
            },
    {
        match self.open_server_socket(CspPort::any_port()) {
            Ok(socket) => Ok(CspSocketBuilder::new(socket)),
            Err(e) => Err(e),
        }
    }
}

/// A pending queue grows only at the tail: the entries present before are
/// still there, in order, and everything appended names a circuit opened
/// since (its id is at or above the old circuit count).
pub open spec fn pending_extended(before: Seq<usize>, after: Seq<usize>, new_floor: int) -> bool {
    &&& after.len() >= before.len()
    &&& after.take(before.len() as int) == before
    &&& forall|k: int|
        before.len() <= k < after.len() ==> (#[trigger] after[k]) as int >= new_floor
}

/// What a server does with one handled port: the implementor consumes the
/// accepted connection. Implementations outside this crate are not
/// verified; the contract records what a handler that serves the
/// connection it is handed maintains through the public interface: the
/// instance stays consistent; circuits are never removed and keep their
/// endpoints; a closed accepting side never reopens; sockets stay bound
/// and listening; and pending queues of pre-existing sockets only gain
/// circuits opened since. A handler that itself accepts connections from a
/// socket bound before the call would fall outside the last clause; a
/// server's handlers are not expected to do that.
pub trait CspPortHandler {
    /// Handles one accepted connection on a bound port.
    fn handle(&mut self, net: &mut LibCspInstance, conn: CspConnection)
        requires
            old(net).wf(),
            conn.attached(*old(net)),
        ensures
            final(net).wf(),
            final(net).cfg() == old(net).cfg(),
            final(net).circuit_count() >= old(net).circuit_count(),
            forall|j: int|
                0 <= j < old(net).circuit_count() && !old(net).acceptor_open(j) ==> !(
                #[trigger] final(net).acceptor_open(j)),
            forall|j: int|
                0 <= j < old(net).circuit_count() ==> #[trigger] final(net).circuit_target(j)
                    == old(net).circuit_target(j),
            final(net).socket_count() >= old(net).socket_count(),
            forall|s: int|
                0 <= s < old(net).socket_count() ==> #[trigger] final(net).socket_open(s) == old(
                    net,
                ).socket_open(s),
            forall|s: int|
                0 <= s < old(net).socket_count() ==> pending_extended(
                    old(net).socket_pending(s),
                    #[trigger] final(net).socket_pending(s),
                    old(net).circuit_count(),
                ),
    ;
}

impl CspPortHandler for () {
    /// Discards the connection, closing it.
    fn handle(&mut self, net: &mut LibCspInstance, conn: CspConnection) {
        conn.close(net);
        proof {
            assert forall|s: int| 0 <= s < old(net).socket_count() implies pending_extended(
                old(net).socket_pending(s),
                #[trigger] net.socket_pending(s),
                old(net).circuit_count(),
            ) by {
                assert(net.socket_pending(s) == old(net).socket_pending(s));
                assert(net.socket_pending(s).take(old(net).socket_pending(s).len() as int)
                    =~= old(net).socket_pending(s));
            }
        }
    }
}

/// The first index from `i` on where `ports` holds `port`, or -1.
pub open spec fn handler_index_from(ports: Seq<u8>, port: u8, i: int) -> int
    decreases ports.len() - i,
{
    if i < 0 || i >= ports.len() {
        -1
    } else if ports[i] == port {
        i
    } else {
        handler_index_from(ports, port, i + 1)
    }
}

/// A missing index means no match from `i` on; a found index is the first
/// match from `i` on.
proof fn lemma_handler_index(ports: Seq<u8>, port: u8, i: int)
    requires
        0 <= i,
    ensures
        handler_index_from(ports, port, i) < 0 ==> forall|j: int|
            i <= j < ports.len() ==> ports[j] != port,
        handler_index_from(ports, port, i) >= 0 ==> {
            &&& i <= handler_index_from(ports, port, i) < ports.len()
            &&& ports[handler_index_from(ports, port, i)] == port
            &&& forall|j: int| i <= j < handler_index_from(ports, port, i) ==> ports[j] != port
        },
    decreases ports.len() - i,
{
    if i < ports.len() && ports[i] != port {
        lemma_handler_index(ports, port, i + 1);
    }
}

/// Where one accepted connection goes: consumed by the built-in service
/// handling, handed to the first matching registered handler, handed to
/// the default handler, or discarded.
#[derive(Debug, Clone, Copy, PartialEq, Eq, Structural)]
pub enum PortDispatch {
    /// Consumed internally: the destination port is a reserved service
    /// port.
    Service,
    /// Handed to the handler registered at this position.
    Handler(usize),
    /// No port matches, but a default handler is registered and takes the
    /// connection.
    Default,
    /// No handler matches: the connection is closed unhandled.
    Discard,
}

/// The dispatch rule: service ports are consumed internally; other ports
/// go to the first handler registered for them, in registration order; an
/// unregistered port goes to the default handler when one is set, and is
/// otherwise discarded. Discarding silently is a policy, not a necessity,
/// which is why the default slot exists.
pub open spec fn dispatch_of(ports: Seq<u8>, has_default: bool, dst_port: u8) -> PortDispatch {
    if is_service_port_spec(dst_port) {
        PortDispatch::Service
    } else if handler_index_from(ports, dst_port, 0) >= 0 {
        PortDispatch::Handler(handler_index_from(ports, dst_port, 0) as usize)
    } else if has_default {
        PortDispatch::Default
    } else {
        PortDispatch::Discard
    }
}

/// Law: service port isolation. A connection whose destination port is a
/// reserved service port is never dispatched to a user handler — neither a
/// registered one nor the default — whatever handlers are registered; a
/// connection on an unregistered non-service port is discarded, reaching
/// no registered handler, when no default handler is set; and when a
/// registered handler is chosen, it is the first one registered for
/// exactly that port.
pub proof fn lemma_service_port_isolation(ports: Seq<u8>, has_default: bool, dst_port: u8)
    requires
        ports.len() <= usize::MAX,
    ensures
        is_service_port_spec(dst_port) ==> forall|i: usize|
            dispatch_of(ports, has_default, dst_port) != PortDispatch::Handler(i),
        is_service_port_spec(dst_port) ==> dispatch_of(ports, has_default, dst_port)
            != PortDispatch::Default,
        dispatch_of(ports, has_default, dst_port) is Discard ==> !has_default && forall|j: int|
            0 <= j < ports.len() ==> ports[j] != dst_port,
        dispatch_of(ports, has_default, dst_port) is Default ==> has_default && forall|j: int|
            0 <= j < ports.len() ==> ports[j] != dst_port,
        dispatch_of(ports, has_default, dst_port) is Handler ==> {
            &&& !is_service_port_spec(dst_port)
            &&& dispatch_of(ports, has_default, dst_port)->Handler_0 < ports.len()
            &&& ports[dispatch_of(ports, has_default, dst_port)->Handler_0 as int] == dst_port
            &&& forall|j: int|
                0 <= j < dispatch_of(ports, has_default, dst_port)->Handler_0 as int ==> ports[j]
                    != dst_port
        },
{
    lemma_handler_index(ports, dst_port, 0);
    if !is_service_port_spec(dst_port) && handler_index_from(ports, dst_port, 0) < 0 {
        assert forall|j: int| 0 <= j < ports.len() implies ports[j] != dst_port by {
            assert(handler_index_from(ports, dst_port, 0) < 0);
        }
    }
}

/// An accept-and-dispatch server: an ordered table of (port, handler)
/// pairs over one listening socket, evaluated first-match-wins in
/// registration order, with an optional default handler for unmatched
/// non-service ports.
pub struct CspSocketBuilder<H: CspPortHandler> {
    socket: CspSocket,
    handlers: Vec<(u8, H)>,
    default_handler: Option<H>,
}

impl<H: CspPortHandler> CspSocketBuilder<H> {
    /// The socket the server accepts on.
    pub closed spec fn socket_spec(&self) -> CspSocket {
        self.socket
    }

    /// The registered ports, in registration order.
    pub closed spec fn ports_spec(&self) -> Seq<u8> {
        self.handlers@.map_values(|p: (u8, H)| p.0)
    }

    /// Whether a default handler is set for unmatched non-service ports.
    pub closed spec fn has_default_spec(&self) -> bool {
        self.default_handler is Some
    }

    /// A server over `socket` with no handlers yet; unmatched ports are
    /// discarded until a default handler is set.
    pub fn new(socket: CspSocket) -> (r: CspSocketBuilder<H>)
        ensures
            r.socket_spec() == socket,
            r.ports_spec() == Seq::<u8>::empty(),
            !r.has_default_spec(),
    {
        let r = CspSocketBuilder { socket, handlers: Vec::new(), default_handler: None };
        proof {
            assert(r.ports_spec() =~= Seq::<u8>::empty());
        }
        r
    }

    /// Registers `handler` for `port`, after every handler registered so
    /// far.
    pub fn bind_port(self, port: u8, handler: H) -> (r: CspSocketBuilder<H>)
        ensures
            r.socket_spec() == self.socket_spec(),
            r.ports_spec() == self.ports_spec().push(port),
            r.has_default_spec() == self.has_default_spec(),
    {
        let CspSocketBuilder { socket, mut handlers, default_handler } = self;
        let ghost ports0 = handlers@.map_values(|p: (u8, H)| p.0);
        handlers.push((port, handler));
        let r = CspSocketBuilder { socket, handlers, default_handler };
        proof {
            assert(r.ports_spec() =~= ports0.push(port));
        }
        r
    }

    /// Sets the handler for connections whose non-service port matches no
    /// registered handler, replacing silent discarding.
    pub fn default_handler(self, handler: H) -> (r: CspSocketBuilder<H>)
        ensures
            r.socket_spec() == self.socket_spec(),
            r.ports_spec() == self.ports_spec(),
            r.has_default_spec(),
    {
        let CspSocketBuilder { socket, handlers, default_handler: _ } = self;
        CspSocketBuilder { socket, handlers, default_handler: Some(handler) }
    }

    /// Where a connection to `dst_port` goes, per the dispatch rule.
    fn dispatch_decision(&self, dst_port: u8) -> (r: PortDispatch)
        ensures
            r == dispatch_of(self.ports_spec(), self.has_default_spec(), dst_port),
            r is Handler ==> r->Handler_0 < self.handlers@.len(),
    {
        proof {
            lemma_handler_index(self.ports_spec(), dst_port, 0);
        }
        if dst_port <= crate::id::SERVICE_PORT_MAX {
            return PortDispatch::Service;
        }
        let n = self.handlers.len();
        let mut i: usize = 0;
        while i < n
            invariant
                i <= n,
                n == self.handlers@.len(),
                handler_index_from(self.ports_spec(), dst_port, 0) == handler_index_from(
                    self.ports_spec(),
                    dst_port,
                    i as int,
                ),
                !is_service_port_spec(dst_port),
            decreases n - i,
        {
            if self.handlers[i].0 == dst_port {
                return PortDispatch::Handler(i);
            }
            i = i + 1;
        }
        if self.default_handler.is_some() {
            PortDispatch::Default
        } else {
            PortDispatch::Discard
        }
    }

    /// Whether the server's socket exists, listens, and has a connection
    /// waiting to be accepted.
    pub open spec fn has_waiting(&self, net: LibCspInstance) -> bool {
        &&& self.socket_spec().sid_spec() < net.socket_count()
        &&& net.socket_open(self.socket_spec().sid_spec())
        &&& net.socket_pending(self.socket_spec().sid_spec()).len() > 0
    }

    /// Whether the dispatch rule settles the `k`-th circuit waiting on the
    /// server's socket without a user handler: it is consumed by the
    /// built-in service handling, or closed unhandled.
    pub open spec fn entry_settled_without_handler(&self, net: LibCspInstance, k: int) -> bool {
        let c = net.socket_pending(self.socket_spec().sid_spec())[k] as int;
        let d = dispatch_of(self.ports_spec(), self.has_default_spec(), net.circuit_target(c).port);
        d is Service || d is Discard
    }

    /// The accept-dispatch loop: each connection the socket accepts is
    /// consumed per the dispatch rule — service connections internally,
    /// matched ports by their first registered handler, unmatched ones by
    /// the default handler or closed. One call serves every connection
    /// waiting when it was made: none of them is pending afterwards, and
    /// each one the rule settles without a user handler ends with its
    /// accepting side closed — user handlers never see those. A
    /// long-running server calls it again as traffic arrives, since a wait
    /// for future peers cannot end in a fabric held by one thread; with
    /// nothing waiting the instance is untouched.
    pub fn run_sync(self, net: &mut LibCspInstance)
        requires
            old(net).wf(),
        ensures
            final(net).wf(),
            final(net).cfg() == old(net).cfg(),
            final(net).circuit_count() >= old(net).circuit_count(),
            !self.has_waiting(*old(net)) ==> *final(net) == *old(net),
            self.socket_spec().sid_spec() < old(net).socket_count() && old(net).socket_open(
                self.socket_spec().sid_spec(),
            ) ==> {
                &&& forall|k: int|
                    0 <= k < old(net).socket_pending(self.socket_spec().sid_spec()).len()
                        ==> !final(net).socket_pending(self.socket_spec().sid_spec()).contains(
                        #[trigger] old(net).socket_pending(self.socket_spec().sid_spec())[k],
                    )
                &&& forall|k: int|
                    0 <= k < old(net).socket_pending(self.socket_spec().sid_spec()).len()
                        && self.entry_settled_without_handler(*old(net), k) ==> (
                    #[trigger] old(net).socket_pending(self.socket_spec().sid_spec())[k])
                        < final(net).circuit_count() && !final(net).acceptor_open(
                        old(net).socket_pending(self.socket_spec().sid_spec())[k] as int,
                    )
            },
    {
        let ghost sid = self.socket_spec().sid_spec();
        let ghost entries = old(net).socket_pending(sid);
        let ghost c_total = old(net).circuit_count();
        let mut this = self;
        let listening = net.socket_listening(this.socket.sid);
        let budget = net.socket_pending_len(this.socket.sid);
        if !listening || budget == 0 {
            return ;
        }
        proof {
            crate::instance::lemma_wf_pending_bound(*net, sid);
        }
        let ghost mut tail: Seq<usize> = Seq::empty();
        let mut j: usize = 0;
        proof {
            assert(net.socket_pending(sid) =~= entries.skip(0) + tail);
        }
        while j < budget
            invariant
                sid == self.socket_spec().sid_spec(),
                entries == old(net).socket_pending(sid),
                c_total == old(net).circuit_count(),
                budget == entries.len(),
                j <= budget,
                net.wf(),
                this.socket_spec() == self.socket_spec(),
                this.ports_spec() == self.ports_spec(),
                this.has_default_spec() == self.has_default_spec(),
                sid < net.socket_count(),
                net.socket_open(sid),
                net.circuit_count() >= c_total,
                net.cfg() == old(net).cfg(),
                forall|k: int| 0 <= k < entries.len() ==> (#[trigger] entries[k]) < c_total,
                net.socket_pending(sid) =~= entries.skip(j as int) + tail,
                forall|t: int| 0 <= t < tail.len() ==> (#[trigger] tail[t]) as int >= c_total,
                forall|c: int|
                    0 <= c < c_total ==> #[trigger] net.circuit_target(c) == old(
                        net,
                    ).circuit_target(c),
                forall|k: int|
                    0 <= k < j && self.entry_settled_without_handler(*old(net), k) ==> (
                    #[trigger] entries[k]) < net.circuit_count() && !net.acceptor_open(
                        entries[k] as int,
                    ),
            decreases budget - j,
        {
            let ghost net_pre = *net;
            proof {
                assert(entries.skip(j as int).len() > 0);
                assert(net_pre.socket_pending(sid).len() > 0);
                assert(net_pre.socket_pending(sid)[0] == entries[j as int]);
            }
            let got = this.socket.accept_timeout(net, ACCEPT_POLL_MS);
            match got {
                None => {
                    proof {
                        assert(false);
                    }
                    return ;
                },
                Some(conn) => {
                    proof {
                        assert(conn.cid_spec() == entries[j as int]);
                        assert(conn.dst_spec() == old(net).circuit_target(entries[j as int] as int));
                        assert(net.socket_pending(sid) =~= entries.skip((j + 1) as int) + tail);
                    }
                    let decision = this.dispatch_decision(conn.dst().port);
                    let ghost cid = conn.cid_spec();
                    match decision {
                        PortDispatch::Service => {
                            conn.handle_as_service_connection(net);
                        },
                        PortDispatch::Handler(i) => {
                            let ghost net_h = *net;
                            let ghost handlers0 = this.handlers@;
                            let pair = &mut this.handlers[i];
                            pair.1.handle(net, conn);
                            proof {
                                assert(this.handlers@.map_values(|p: (u8, H)| p.0)
                                    =~= handlers0.map_values(|p: (u8, H)| p.0));
                                let appended = net.socket_pending(sid).skip(
                                    net_h.socket_pending(sid).len() as int,
                                );
                                assert(pending_extended(
                                    net_h.socket_pending(sid),
                                    net.socket_pending(sid),
                                    net_h.circuit_count(),
                                ));
                                assert(net.socket_pending(sid) =~= net_h.socket_pending(sid)
                                    + appended);
                                tail = tail + appended;
                                assert(net.socket_pending(sid) =~= entries.skip((j + 1) as int)
                                    + tail);
                            }
                        },
                        PortDispatch::Default => {
                            let ghost net_h = *net;
                            match &mut this.default_handler {
                                Some(handler) => {
                                    handler.handle(net, conn);
                                    proof {
                                        let appended = net.socket_pending(sid).skip(
                                            net_h.socket_pending(sid).len() as int,
                                        );
                                        assert(pending_extended(
                                            net_h.socket_pending(sid),
                                            net.socket_pending(sid),
                                            net_h.circuit_count(),
                                        ));
                                        assert(net.socket_pending(sid) =~= net_h.socket_pending(
                                            sid,
                                        ) + appended);
                                        tail = tail + appended;
                                        assert(net.socket_pending(sid) =~= entries.skip(
                                            (j + 1) as int,
                                        ) + tail);
                                    }
                                },
                                None => conn.close(net),
                            }
                        },
                        PortDispatch::Discard => {
                            conn.close(net);
                        },
                    }
                    proof {
                        if self.entry_settled_without_handler(*old(net), j as int) {
                            assert(!net.acceptor_open(cid as int));
                        }
                    }
                },
            }
            j = j + 1;
        }
        proof {
            assert(net.socket_pending(sid) =~= tail);
            assert forall|k: int| 0 <= k < entries.len() implies !net.socket_pending(
                sid,
            ).contains(#[trigger] entries[k]) by {
                if net.socket_pending(sid).contains(entries[k]) {
                    let t = choose|t: int|
                        0 <= t < net.socket_pending(sid).len() && net.socket_pending(sid)[t]
                            == entries[k];
                    assert(tail[t] as int >= c_total);
                    assert((entries[k] as int) < c_total);
                }
            }
        }
    }
}

} // verus!
