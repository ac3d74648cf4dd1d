//! Loopback connectivity: a client reaches a server socket on the same
//! node and its packet arrives intact.

use libcsp::{
    CspConnAddress, CspConnPriority, CspPort, LibCspBuilder, LibCspConfig,
};

#[test]
fn test_loopback_connectivity() {
    let address = 1;
    let port = 10;
    let mut net = LibCspBuilder::new(LibCspConfig::new(address)).build();

    let socket = net.open_server_socket(CspPort::port(port)).unwrap();
    let client = net.client();
    let connection = client
        .connect(
            &mut net,
            CspConnAddress::new(address as u16, port),
            CspConnPriority::Normal,
            1000,
        )
        .unwrap();
    connection.send_packet(&mut net, 1000, b"Hello from test").unwrap();

    let conn = socket.accept_timeout(&mut net, 2000).expect("No connection received");
    let mut packets = conn.iter_packets(1000);
    let packet = packets.next(&mut net).expect("No packet received");
    let data = String::from_utf8_lossy(packet.as_slice());
    let data = data.trim_end_matches('\0');
    assert_eq!(data, "Hello from test");

    packet.release(&mut net);
    packets.into_connection().close(&mut net);
    connection.close(&mut net);
}
