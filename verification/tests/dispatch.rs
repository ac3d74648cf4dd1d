//! Tests of the accept-dispatch server: service port isolation, first-match
//! handler selection, and the silent close of unhandled ports.

use libcsp::{
    CspConnAddress, CspConnection, CspConnPriority, CspPort, CspPortHandler, LibCspBuilder,
    LibCspConfig, LibCspInstance,
};

/// A handler that takes the connection and neither reads nor closes it, so
/// an invocation is visible in the pool counter: packets queued on the
/// leaked connection never come back.
struct LeakingHandler;

impl CspPortHandler for LeakingHandler {
    fn handle(&mut self, _net: &mut LibCspInstance, _conn: CspConnection) {}
}

/// A handler that reads one packet, checks it, and closes the connection.
struct EchoCheckHandler {
    expected: &'static [u8],
}

impl CspPortHandler for EchoCheckHandler {
    fn handle(&mut self, net: &mut LibCspInstance, conn: CspConnection) {
        let packet = conn.read(net, 50).expect("one packet must be queued");
        assert_eq!(packet.as_slice(), self.expected);
        packet.release(net);
        conn.close(net);
    }
}

#[test]
fn service_connections_never_reach_a_user_handler() {
    let mut net = LibCspBuilder::new(LibCspConfig::new(1).buffers(8)).build();
    let builder = net.server_socket_builder::<LeakingHandler>().unwrap();
    // a handler registered even for a service port number must not see
    // service traffic
    let builder = builder.bind_port(1, LeakingHandler);
    let client = net.client();

    let conn = client
        .connect(&mut net, CspConnAddress::new(1, 1), CspConnPriority::Normal, 1000)
        .unwrap();
    conn.send_packet(&mut net, 1000, b"probe").unwrap();
    conn.send_packet(&mut net, 1000, b"probe").unwrap();
    assert_eq!(net.buffers_free(), 6);

    builder.run_sync(&mut net);

    // the built-in service handling consumed the connection and returned
    // its buffers; the leaking handler was never invoked
    assert_eq!(net.buffers_free(), 8);
    conn.close(&mut net);
}

#[test]
fn unregistered_ports_are_closed_without_a_handler() {
    let mut net = LibCspBuilder::new(LibCspConfig::new(1).buffers(8)).build();
    let builder = net.server_socket_builder::<LeakingHandler>().unwrap();
    let builder = builder.bind_port(20, LeakingHandler);
    let client = net.client();

    // port 30 is neither a service port nor registered
    let conn = client
        .connect(&mut net, CspConnAddress::new(1, 30), CspConnPriority::Normal, 1000)
        .unwrap();
    conn.send_packet(&mut net, 1000, b"dropped").unwrap();
    assert_eq!(net.buffers_free(), 7);

    builder.run_sync(&mut net);

    // the connection was closed unhandled: its queued packet is back in
    // the pool, and no handler leaked it
    assert_eq!(net.buffers_free(), 8);
    conn.close(&mut net);
}

#[test]
fn registered_ports_reach_their_handler() {
    let mut net = LibCspBuilder::new(LibCspConfig::new(1).buffers(8)).build();
    let builder = net.server_socket_builder::<LeakingHandler>().unwrap();
    let builder = builder.bind_port(20, LeakingHandler);
    let client = net.client();

    let conn = client
        .connect(&mut net, CspConnAddress::new(1, 20), CspConnPriority::Normal, 1000)
        .unwrap();
    conn.send_packet(&mut net, 1000, b"kept").unwrap();
    assert_eq!(net.buffers_free(), 7);

    builder.run_sync(&mut net);

    // the handler took the connection and leaked it on purpose: the queued
    // packet is still out, which shows the handler, not the discard path,
    // consumed the connection
    assert_eq!(net.buffers_free(), 7);
    conn.close(&mut net);
}

#[test]
fn handler_sees_the_payload() {
    let mut net = LibCspBuilder::new(LibCspConfig::new(1).buffers(8)).build();
    let builder = net.server_socket_builder::<EchoCheckHandler>().unwrap();
    let builder = builder.bind_port(20, EchoCheckHandler { expected: b"hello handler" });
    let client = net.client();

    let conn = client
        .connect(&mut net, CspConnAddress::new(1, 20), CspConnPriority::Normal, 1000)
        .unwrap();
    conn.send_packet(&mut net, 1000, b"hello handler").unwrap();

    builder.run_sync(&mut net);

    // the handler read, checked, released and closed: all buffers are back
    assert_eq!(net.buffers_free(), 8);
    conn.close(&mut net);
}

#[test]
fn first_registered_handler_wins() {
    let mut net = LibCspBuilder::new(LibCspConfig::new(1).buffers(8)).build();
    let builder = net.server_socket_builder::<EchoCheckHandler>().unwrap();
    // two handlers for the same port: registration order decides
    let builder = builder
        .bind_port(20, EchoCheckHandler { expected: b"first wins" })
        .bind_port(20, EchoCheckHandler { expected: b"second never sees this" });
    let client = net.client();

    let conn = client
        .connect(&mut net, CspConnAddress::new(1, 20), CspConnPriority::Normal, 1000)
        .unwrap();
    conn.send_packet(&mut net, 1000, b"first wins").unwrap();

    builder.run_sync(&mut net);
    assert_eq!(net.buffers_free(), 8);
    conn.close(&mut net);
}

#[test]
fn dedicated_socket_on_a_specific_port() {
    // connects to a specifically bound port reach that socket even when an
    // any-port socket also listens
    let mut net = LibCspBuilder::new(LibCspConfig::new(1)).build();
    let specific = net.open_server_socket(CspPort::port(10)).unwrap();
    let builder = net.server_socket_builder::<LeakingHandler>().unwrap();
    let client = net.client();

    let conn = client
        .connect(&mut net, CspConnAddress::new(1, 10), CspConnPriority::Normal, 1000)
        .unwrap();
    let accepted = specific.accept_timeout(&mut net, 50);
    let accepted = accepted.expect("the specific socket wins over the any-port socket");
    accepted.close(&mut net);
    conn.close(&mut net);

    // the any-port socket catches everything else
    let conn = client
        .connect(&mut net, CspConnAddress::new(1, 77), CspConnPriority::Normal, 1000)
        .unwrap();
    assert!(specific.accept_timeout(&mut net, 50).is_none());
    builder.run_sync(&mut net);
    conn.close(&mut net);
}

#[test]
fn default_handler_replaces_silent_discard() {
    let mut net = LibCspBuilder::new(LibCspConfig::new(1).buffers(8)).build();
    let builder = net.server_socket_builder::<LeakingHandler>().unwrap();
    // port 20 is registered; everything else unmatched goes to the default
    let builder = builder
        .bind_port(20, LeakingHandler)
        .default_handler(LeakingHandler);
    let client = net.client();

    let conn = client
        .connect(&mut net, CspConnAddress::new(1, 30), CspConnPriority::Normal, 1000)
        .unwrap();
    conn.send_packet(&mut net, 1000, b"caught by the default").unwrap();
    assert_eq!(net.buffers_free(), 7);

    builder.run_sync(&mut net);

    // the default handler leaked the connection on purpose: the queued
    // packet is still out, so the connection was handed over, not closed
    assert_eq!(net.buffers_free(), 7);
    conn.close(&mut net);

    // service traffic still never reaches the default handler
    let mut net = LibCspBuilder::new(LibCspConfig::new(1).buffers(8)).build();
    let builder = net
        .server_socket_builder::<LeakingHandler>()
        .unwrap()
        .default_handler(LeakingHandler);
    let conn = net
        .client()
        .connect(&mut net, CspConnAddress::new(1, 0), CspConnPriority::Normal, 1000)
        .unwrap();
    conn.send_packet(&mut net, 1000, b"service probe").unwrap();
    builder.run_sync(&mut net);
    assert_eq!(net.buffers_free(), 8);
    conn.close(&mut net);
}
