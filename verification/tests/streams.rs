//! Byte-stream round trips: the stream writer and reader preserve the byte
//! sequence exactly, whatever the chunking on either side.

use libcsp::{
    CspConnAddress, CspConnPriority, CspErrorKind, CspPort, LibCspBuilder, LibCspConfig,
};

fn pseudo_random_bytes(n: usize) -> Vec<u8> {
    let mut out = Vec::with_capacity(n);
    let mut state: u32 = 0x2545_F491;
    for _ in 0..n {
        state = state.wrapping_mul(1103515245).wrapping_add(12345);
        out.push((state >> 16) as u8);
    }
    out
}

#[test]
fn stream_round_trip_across_chunkings() {
    // every combination of write chunking and read buffer size yields the
    // bytes written, in order
    let data = pseudo_random_bytes(2000);
    for &chunk in &[1usize, 7, 100, 256, 333, 2000] {
        for &read_size in &[1usize, 13, 256, 511, 2000] {
            let mut net =
                LibCspBuilder::new(LibCspConfig::new(1).buffers(64)).build();
            let socket = net.open_server_socket(CspPort::port(10)).unwrap();
            let client = net.client();
            let conn = client
                .connect(&mut net, CspConnAddress::new(1, 10), CspConnPriority::Normal, 1000)
                .unwrap();

            let mut writer = conn.into_writer();
            let mut off = 0;
            while off < data.len() {
                let end = (off + chunk).min(data.len());
                assert_eq!(writer.write(&mut net, &data[off..end]).unwrap(), end - off);
                off = end;
            }
            writer.flush(&mut net).unwrap();
            let client_conn = writer.finish(&mut net);

            let accepted = socket.accept_timeout(&mut net, 50).unwrap();
            let mut reader = accepted.into_reader(50);
            let mut got = Vec::new();
            loop {
                let piece = reader.read(&mut net, read_size);
                if piece.is_empty() {
                    break;
                }
                got.extend_from_slice(&piece);
            }
            assert_eq!(got.len(), data.len());
            assert_eq!(got, data);

            reader.into_connection(&mut net).close(&mut net);
            client_conn.close(&mut net);
        }
    }
}

#[test]
fn writer_emits_full_packets_and_keeps_the_rest() {
    let mut net = LibCspBuilder::new(LibCspConfig::new(1).buffers(8)).build();
    let socket = net.open_server_socket(CspPort::port(10)).unwrap();
    let client = net.client();
    let conn = client
        .connect(&mut net, CspConnAddress::new(1, 10), CspConnPriority::Normal, 1000)
        .unwrap();
    let mut writer = conn.into_writer();

    // 600 bytes through 256-byte buffers: two full packets out, 88 buffered
    let data = pseudo_random_bytes(600);
    writer.write(&mut net, &data).unwrap();
    assert_eq!(net.buffers_free(), 6);

    let accepted = socket.accept_timeout(&mut net, 50).unwrap();
    let p1 = accepted.read(&mut net, 50).unwrap();
    assert_eq!(p1.as_slice(), &data[..256]);
    p1.release(&mut net);
    let p2 = accepted.read(&mut net, 50).unwrap();
    assert_eq!(p2.as_slice(), &data[256..512]);
    p2.release(&mut net);
    assert!(accepted.read(&mut net, 50).is_none());

    // the flush sends the 88 buffered bytes as one short packet
    writer.flush(&mut net).unwrap();
    let p3 = accepted.read(&mut net, 50).unwrap();
    assert_eq!(p3.as_slice(), &data[512..]);
    p3.release(&mut net);

    // a second flush with nothing buffered sends nothing
    writer.flush(&mut net).unwrap();
    assert!(accepted.read(&mut net, 50).is_none());

    // a zero-length write is a no-op
    writer.write(&mut net, &[]).unwrap();
    writer.flush(&mut net).unwrap();
    assert!(accepted.read(&mut net, 50).is_none());

    accepted.close(&mut net);
    writer.finish(&mut net).close(&mut net);
}

#[test]
fn writer_fails_with_no_buffers_and_resumes() {
    let mut net = LibCspBuilder::new(LibCspConfig::new(1).buffers(1)).build();
    let socket = net.open_server_socket(CspPort::port(10)).unwrap();
    let client = net.client();
    let conn = client
        .connect(&mut net, CspConnAddress::new(1, 10), CspConnPriority::Normal, 1000)
        .unwrap();
    let mut writer = conn.into_writer();

    // 512 bytes need two packets but the pool has one buffer
    let data = pseudo_random_bytes(512);
    let r = writer.write(&mut net, &data);
    assert_eq!(r.unwrap_err().kind, CspErrorKind::NoBuffersAvailable);
    assert_eq!(net.buffers_free(), 0);

    // a zero-length write stays a no-op even while a full packet is
    // buffered: nothing goes out until a flush or a non-empty write
    assert_eq!(writer.write(&mut net, &[]).unwrap(), 0);
    assert_eq!(net.buffers_free(), 0);

    // the first packet is on the wire; reading it frees its buffer
    let accepted = socket.accept_timeout(&mut net, 50).unwrap();
    let p1 = accepted.read(&mut net, 50).unwrap();
    assert_eq!(p1.as_slice(), &data[..256]);
    p1.release(&mut net);

    // even with a buffer free again, an empty write sends nothing
    assert_eq!(writer.write(&mut net, &[]).unwrap(), 0);
    assert_eq!(net.buffers_free(), 1);

    // the second packet stayed buffered and a flush now sends it
    writer.flush(&mut net).unwrap();
    let p2 = accepted.read(&mut net, 50).unwrap();
    assert_eq!(p2.as_slice(), &data[256..]);
    p2.release(&mut net);

    accepted.close(&mut net);
    writer.finish(&mut net).close(&mut net);
}

#[test]
fn reader_serves_exact_slices() {
    let mut net = LibCspBuilder::new(LibCspConfig::new(1)).build();
    let socket = net.open_server_socket(CspPort::port(10)).unwrap();
    let client = net.client();
    let conn = client
        .connect(&mut net, CspConnAddress::new(1, 10), CspConnPriority::Normal, 1000)
        .unwrap();
    conn.send_packet(&mut net, 1000, b"abcde").unwrap();
    conn.send_packet(&mut net, 1000, b"fgh").unwrap();

    let accepted = socket.accept_timeout(&mut net, 50).unwrap();
    let mut reader = accepted.into_reader(50);
    // slices cross the packet boundary and keep the order
    assert_eq!(reader.read(&mut net, 2), b"ab");
    assert_eq!(reader.read(&mut net, 4), b"cdef");
    // asking for more than is left returns what is left, and ends the stream
    assert_eq!(reader.read(&mut net, 10), b"gh");
    assert_eq!(reader.read(&mut net, 10), b"");
    assert_eq!(reader.read(&mut net, 1), b"");

    reader.into_connection(&mut net).close(&mut net);
    conn.close(&mut net);
}

#[test]
fn end_to_end_scenario() {
    // server binds port ten and writes nothing; a client stream-writes the
    // same ten-thousand-byte buffer over three connections, in hundred-,
    // thousand- and ten-thousand-byte chunks; the server reads each
    // connection to completion and sees the buffer byte for byte
    let data = pseudo_random_bytes(10000);
    let mut net = LibCspBuilder::new(LibCspConfig::new(1).buffers(64)).build();
    let socket = net.open_server_socket(CspPort::port(10)).unwrap();
    let client = net.client();

    for &chunk in &[100usize, 1000, 10000] {
        let conn = client
            .connect(&mut net, CspConnAddress::new(1, 10), CspConnPriority::Normal, 1000)
            .unwrap();
        let mut writer = conn.into_writer();
        for piece in data.chunks(chunk) {
            assert_eq!(writer.write(&mut net, piece).unwrap(), piece.len());
        }
        writer.flush(&mut net).unwrap();
        let client_conn = writer.finish(&mut net);

        let accepted = socket.accept_timeout(&mut net, 1000).unwrap();
        let mut reader = accepted.into_reader(1000);
        let mut got = Vec::new();
        loop {
            let piece = reader.read(&mut net, 1024);
            if piece.is_empty() {
                break;
            }
            got.extend_from_slice(&piece);
        }
        assert_eq!(got.len(), data.len());
        assert_eq!(got, data);

        reader.into_connection(&mut net).close(&mut net);
        client_conn.close(&mut net);
        // every buffer is back in the pool between connections
        assert_eq!(net.buffers_free(), 64);
    }
}
