//! Tests of the fabric: binding, connecting, accepting, packets and the
//! buffer pool.

use libcsp::{
    CspConnAddress, CspConnPriority, CspErrorKind, CspPort, LibCspBuilder, LibCspConfig,
    CspInterface, Route,
};

#[test]
fn build_starts_with_a_full_pool() {
    let net = LibCspBuilder::new(LibCspConfig::new(1).buffers(17)).build();
    assert_eq!(net.buffers_free(), 17);
    assert_eq!(net.config().address, 1);
}

#[test]
fn routes_are_registered() {
    let mut net = LibCspBuilder::new(LibCspConfig::new(1)).build();
    let r = net.add_interface_route(
        Route::default_address(),
        CspInterface::new_zmq(1, "localhost", 0),
    );
    assert!(r.is_ok());
}

#[test]
fn binding_a_port_twice_fails_with_used() {
    let mut net = LibCspBuilder::new(LibCspConfig::new(1)).build();
    let first = net.open_server_socket(CspPort::port(10));
    assert!(first.is_ok());
    let second = net.open_server_socket(CspPort::port(10));
    assert_eq!(second.unwrap_err().kind, CspErrorKind::Used);
    // a different port still binds
    assert!(net.open_server_socket(CspPort::port(11)).is_ok());
}

#[test]
fn accept_timeout_semantics() {
    let mut net = LibCspBuilder::new(LibCspConfig::new(1)).build();
    let socket = net.open_server_socket(CspPort::port(10)).unwrap();

    // no peer connected within the timeout: None
    assert!(socket.accept_timeout(&mut net, 50).is_none());

    // a peer connects before the next accept: Some, promptly
    let client = net.client();
    let conn = client
        .connect(&mut net, CspConnAddress::new(1, 10), CspConnPriority::Normal, 1000)
        .unwrap();
    let accepted = socket.accept_timeout(&mut net, 50);
    let accepted = accepted.expect("a waiting connection must be accepted at once");
    assert_eq!(accepted.dst().port, 10);
    assert_eq!(accepted.dst().address, 1);

    // and the queue is drained again
    assert!(socket.accept_timeout(&mut net, 50).is_none());

    accepted.close(&mut net);
    conn.close(&mut net);
}

#[test]
fn connect_without_listener_fails() {
    let mut net = LibCspBuilder::new(LibCspConfig::new(1)).build();
    let client = net.client();
    let r = client.connect(&mut net, CspConnAddress::new(1, 10), CspConnPriority::Normal, 1000);
    assert_eq!(r.unwrap_err().kind, CspErrorKind::ConnectFailed);

    // a remote address is unreachable in an in-process fabric
    let _socket = net.open_server_socket(CspPort::port(10)).unwrap();
    let r = client.connect(&mut net, CspConnAddress::new(2, 10), CspConnPriority::Normal, 1000);
    assert_eq!(r.unwrap_err().kind, CspErrorKind::ConnectFailed);

    // with a listener on the port, the same open succeeds
    let r = client.connect(&mut net, CspConnAddress::new(1, 10), CspConnPriority::Normal, 1000);
    assert!(r.is_ok());
}

#[test]
fn connect_respects_the_backlog() {
    let mut config = LibCspConfig::new(1);
    config.connection_backlog = 2;
    let mut net = LibCspBuilder::new(config).build();
    let _socket = net.open_server_socket(CspPort::port(10)).unwrap();
    let client = net.client();
    let addr = CspConnAddress::new(1, 10);
    assert!(client.connect(&mut net, addr, CspConnPriority::Normal, 1000).is_ok());
    assert!(client.connect(&mut net, addr, CspConnPriority::Normal, 1000).is_ok());
    let third = client.connect(&mut net, addr, CspConnPriority::Normal, 1000);
    assert_eq!(third.unwrap_err().kind, CspErrorKind::ConnectFailed);
}

#[test]
fn send_packet_size_invariant() {
    let mut net = LibCspBuilder::new(LibCspConfig::new(1).buffer_data_size(64)).build();
    let socket = net.open_server_socket(CspPort::port(10)).unwrap();
    let client = net.client();
    let conn = client
        .connect(&mut net, CspConnAddress::new(1, 10), CspConnPriority::Normal, 1000)
        .unwrap();

    // one byte over the buffer size: invalid argument, nothing sent
    let too_long = vec![7u8; 65];
    let r = conn.send_packet(&mut net, 1000, &too_long);
    assert_eq!(r.unwrap_err().kind, CspErrorKind::Inval);

    // at the buffer size exactly: accepted and byte-faithful
    let exact: Vec<u8> = (0..64u8).collect();
    conn.send_packet(&mut net, 1000, &exact).unwrap();

    let accepted = socket.accept_timeout(&mut net, 50).unwrap();
    let packet = accepted.read(&mut net, 50).expect("the packet must be queued");
    assert_eq!(packet.as_slice(), &exact[..]);
    let id = packet.id();
    assert_eq!(id.dport, 10);
    assert_eq!(id.dst, 1);
    assert_eq!(id.priority, CspConnPriority::Normal);
    packet.release(&mut net);

    // nothing else queued: a read reports no packet, again and again
    assert!(accepted.read(&mut net, 50).is_none());
    assert!(accepted.read(&mut net, 50).is_none());

    accepted.close(&mut net);
    conn.close(&mut net);
}

#[test]
fn pool_accounting_is_exact() {
    let mut net = LibCspBuilder::new(LibCspConfig::new(1).buffers(4)).build();
    let socket = net.open_server_socket(CspPort::port(10)).unwrap();
    let client = net.client();
    let conn = client
        .connect(&mut net, CspConnAddress::new(1, 10), CspConnPriority::Normal, 1000)
        .unwrap();
    assert_eq!(net.buffers_free(), 4);

    // each packet sent takes one buffer
    conn.send_packet(&mut net, 1000, b"one").unwrap();
    conn.send_packet(&mut net, 1000, b"two").unwrap();
    assert_eq!(net.buffers_free(), 2);

    // reading moves the buffer into the handle; releasing the handle
    // returns it, exactly once — the handle is consumed by release
    let accepted = socket.accept_timeout(&mut net, 50).unwrap();
    let packet = accepted.read(&mut net, 50).unwrap();
    assert_eq!(net.buffers_free(), 2);
    assert_eq!(packet.as_slice(), b"one");
    assert_eq!(packet.as_slice(), b"one");
    packet.release(&mut net);
    assert_eq!(net.buffers_free(), 3);

    // closing a side returns every packet still queued toward it
    accepted.close(&mut net);
    assert_eq!(net.buffers_free(), 4);
    conn.close(&mut net);
    assert_eq!(net.buffers_free(), 4);
}

#[test]
fn pool_exhaustion_is_a_typed_error() {
    let mut net = LibCspBuilder::new(LibCspConfig::new(1).buffers(2)).build();
    let _socket = net.open_server_socket(CspPort::port(10)).unwrap();
    let client = net.client();
    let conn = client
        .connect(&mut net, CspConnAddress::new(1, 10), CspConnPriority::Normal, 1000)
        .unwrap();
    conn.send_packet(&mut net, 1000, b"a").unwrap();
    conn.send_packet(&mut net, 1000, b"b").unwrap();
    let r = conn.send_packet(&mut net, 1000, b"c");
    assert_eq!(r.unwrap_err().kind, CspErrorKind::NoBuffersAvailable);
    conn.close(&mut net);
}

#[test]
fn ping_reaches_the_local_node_only() {
    let mut net = LibCspBuilder::new(LibCspConfig::new(3).buffers(2)).build();
    let client = net.client();
    assert_eq!(client.ping(&net, 3).unwrap(), 0);
    assert_eq!(client.ping_timeout_size(&net, 3, 500, 10).unwrap(), 0);
    assert_eq!(client.ping(&net, 4).unwrap_err().kind, CspErrorKind::Timedout);

    // drain the pool: even the local probe has no buffer left
    let _socket = net.open_server_socket(CspPort::port(10)).unwrap();
    let conn = client
        .connect(&mut net, CspConnAddress::new(3, 10), CspConnPriority::Normal, 1000)
        .unwrap();
    conn.send_packet(&mut net, 1000, b"a").unwrap();
    conn.send_packet(&mut net, 1000, b"b").unwrap();
    assert_eq!(client.ping(&net, 3).unwrap_err().kind, CspErrorKind::NoBuffersAvailable);
    conn.close(&mut net);
}

#[test]
fn ephemeral_source_ports_count_up() {
    let mut net = LibCspBuilder::new(LibCspConfig::new(1)).build();
    let socket = net.open_server_socket(CspPort::port(10)).unwrap();
    let client = net.client();
    let addr = CspConnAddress::new(1, 10);
    let c1 = client.connect(&mut net, addr, CspConnPriority::Normal, 1000).unwrap();
    let c2 = client.connect(&mut net, addr, CspConnPriority::Normal, 1000).unwrap();

    let a1 = socket.accept_timeout(&mut net, 50).unwrap();
    let a2 = socket.accept_timeout(&mut net, 50).unwrap();
    assert_eq!(a1.src().address, 1);
    assert_eq!(a1.src().port, libcsp::EPHEMERAL_PORT_FIRST);
    assert_eq!(a2.src().port, libcsp::EPHEMERAL_PORT_FIRST + 1);

    a1.close(&mut net);
    a2.close(&mut net);
    c1.close(&mut net);
    c2.close(&mut net);
}

#[test]
fn packet_iterator_yields_in_order_until_empty() {
    let mut net = LibCspBuilder::new(LibCspConfig::new(1)).build();
    let socket = net.open_server_socket(CspPort::port(10)).unwrap();
    let client = net.client();
    let conn = client
        .connect(&mut net, CspConnAddress::new(1, 10), CspConnPriority::High, 1000)
        .unwrap();
    conn.send_packet(&mut net, 1000, b"first").unwrap();
    conn.send_packet(&mut net, 1000, b"second").unwrap();

    let accepted = socket.accept_timeout(&mut net, 50).unwrap();
    let mut iter = accepted.iter_packets(50);
    let p1 = iter.next(&mut net).unwrap();
    assert_eq!(p1.as_slice(), b"first");
    assert_eq!(p1.id().priority, CspConnPriority::High);
    p1.release(&mut net);
    let p2 = iter.next(&mut net).unwrap();
    assert_eq!(p2.as_slice(), b"second");
    p2.release(&mut net);
    assert!(iter.next(&mut net).is_none());
    assert!(iter.next(&mut net).is_none());

    // the sequence has terminated permanently: a packet that arrives later
    // is not yielded any more
    conn.send_packet(&mut net, 1000, b"late").unwrap();
    assert!(iter.next(&mut net).is_none());

    iter.into_connection().close(&mut net);
    conn.close(&mut net);
}

#[test]
fn send_packet_with_builds_in_place() {
    let mut net = LibCspBuilder::new(LibCspConfig::new(1).buffer_data_size(16).buffers(2)).build();
    let socket = net.open_server_socket(CspPort::port(10)).unwrap();
    let client = net.client();
    let conn = client
        .connect(&mut net, CspConnAddress::new(1, 10), CspConnPriority::Normal, 1000)
        .unwrap();

    // the callback sees a zeroed buffer of the payload size and fills a prefix
    conn.send_packet_with(&mut net, 1000, |mut buf: Vec<u8>| {
        assert_eq!(buf.len(), 16);
        assert!(buf.iter().all(|&b| b == 0));
        buf[0] = 0xAA;
        buf[1] = 0xBB;
        buf[2] = 0xCC;
        (buf, 3)
    })
    .unwrap();
    assert_eq!(net.buffers_free(), 1);

    let accepted = socket.accept_timeout(&mut net, 50).unwrap();
    let packet = accepted.read(&mut net, 50).unwrap();
    assert_eq!(packet.as_slice(), &[0xAA, 0xBB, 0xCC]);
    packet.release(&mut net);

    // a reported length over the buffer size is an invalid argument and
    // costs no buffer
    let r = conn.send_packet_with(&mut net, 1000, |buf: Vec<u8>| (buf, 17));
    assert_eq!(r.unwrap_err().kind, CspErrorKind::Inval);
    assert_eq!(net.buffers_free(), 2);

    // the accepted side can answer the same way
    accepted
        .send_packet_with(&mut net, |mut buf: Vec<u8>| {
            buf[0] = 0x5A;
            (buf, 1)
        })
        .unwrap();
    assert_eq!(net.buffers_free(), 1);

    // with the pool exhausted the callback never runs
    conn.send_packet(&mut net, 1000, b"x").unwrap();
    assert_eq!(net.buffers_free(), 0);
    let r = conn.send_packet_with(&mut net, 1000, |_buf: Vec<u8>| {
        panic!("the callback must not run when the pool is empty")
    });
    assert_eq!(r.unwrap_err().kind, CspErrorKind::NoBuffersAvailable);

    accepted.close(&mut net);
    conn.close(&mut net);
}
