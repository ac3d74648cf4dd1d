//! Unit tests for the plain value types: errors, identifiers, ports,
//! routes, configuration and debug channels.

use libcsp::{
    result_from_i32, CspConnAddress, CspConnPriority, CspDebugChannel, CspErrorKind, CspId,
    CspPort, LibCspConfig, Route, ANY_PORT, NO_VIA_ADDRESS, SERVICE_PORT_MAX,
};

#[test]
fn error_codes_map_to_kinds() {
    assert!(result_from_i32(0).is_ok());
    assert_eq!(result_from_i32(-1).unwrap_err(), CspErrorKind::Nomem);
    assert_eq!(result_from_i32(-2).unwrap_err(), CspErrorKind::Inval);
    assert_eq!(result_from_i32(-3).unwrap_err(), CspErrorKind::Timedout);
    assert_eq!(result_from_i32(-4).unwrap_err(), CspErrorKind::Used);
    assert_eq!(result_from_i32(-5).unwrap_err(), CspErrorKind::Notsup);
    assert_eq!(result_from_i32(-6).unwrap_err(), CspErrorKind::Busy);
    assert_eq!(result_from_i32(-7).unwrap_err(), CspErrorKind::Already);
    assert_eq!(result_from_i32(-8).unwrap_err(), CspErrorKind::Reset);
    assert_eq!(result_from_i32(-9).unwrap_err(), CspErrorKind::Nobufs);
    assert_eq!(result_from_i32(-10).unwrap_err(), CspErrorKind::Tx);
    assert_eq!(result_from_i32(-11).unwrap_err(), CspErrorKind::Driver);
    assert_eq!(result_from_i32(-12).unwrap_err(), CspErrorKind::Again);
    assert_eq!(result_from_i32(-100).unwrap_err(), CspErrorKind::Hmac);
    assert_eq!(result_from_i32(-101).unwrap_err(), CspErrorKind::Xtea);
    assert_eq!(result_from_i32(-102).unwrap_err(), CspErrorKind::Crc32);
    assert_eq!(result_from_i32(-103).unwrap_err(), CspErrorKind::Sfp);
    assert_eq!(result_from_i32(-42).unwrap_err(), CspErrorKind::Unknown(-42));
    assert_eq!(result_from_i32(7).unwrap_err(), CspErrorKind::Unknown(7));
}

#[test]
fn error_descriptions() {
    assert_eq!(CspErrorKind::Nomem.description(), "No memory available");
    assert_eq!(CspErrorKind::Inval.description(), "Invalid argument");
    assert_eq!(CspErrorKind::Timedout.description(), "Timed out");
    assert_eq!(CspErrorKind::Used.description(), "Already in use");
    assert_eq!(
        CspErrorKind::NoBuffersAvailable.description(),
        "No buffers available in the pool"
    );
    assert_eq!(CspErrorKind::ConnectFailed.description(), "Failed to connect");
}

#[test]
fn priorities_round_trip() {
    assert_eq!(CspConnPriority::Critical.as_u8(), 0);
    assert_eq!(CspConnPriority::High.as_u8(), 1);
    assert_eq!(CspConnPriority::Normal.as_u8(), 2);
    assert_eq!(CspConnPriority::Low.as_u8(), 3);
    for p in [
        CspConnPriority::Critical,
        CspConnPriority::High,
        CspConnPriority::Normal,
        CspConnPriority::Low,
    ] {
        assert_eq!(CspConnPriority::from_u8(p.as_u8()), p);
    }
    assert_eq!(CspConnPriority::from_u8(9), CspConnPriority::Normal);
}

#[test]
fn service_ports_are_the_low_range() {
    for port in 0..=SERVICE_PORT_MAX {
        assert!(CspConnAddress::new(1, port).is_service_port());
    }
    assert!(!CspConnAddress::new(1, SERVICE_PORT_MAX + 1).is_service_port());
    assert!(!CspConnAddress::new(1, 10).is_service_port());
    assert!(!CspConnAddress::new(1, 254).is_service_port());
}

#[test]
fn conn_address_holds_its_parts() {
    let a = CspConnAddress::new(513, 42);
    assert_eq!(a.address, 513);
    assert_eq!(a.port, 42);
}

#[test]
fn id_from_raw_maps_priority_with_fallback() {
    let id = CspId::from_raw(1, 3, 10, 20, 30, 40);
    assert_eq!(id.priority, CspConnPriority::High);
    assert_eq!(id.flags, 3);
    assert_eq!(id.src, 10);
    assert_eq!(id.dst, 20);
    assert_eq!(id.dport, 30);
    assert_eq!(id.sport, 40);
    assert_eq!(CspId::from_raw(200, 0, 0, 0, 0, 0).priority, CspConnPriority::Normal);
}

#[test]
fn ports_and_the_any_sentinel() {
    let p = CspPort::port(10);
    assert_eq!(p.as_u8(), 10);
    let any = CspPort::any_port();
    assert_eq!(any.as_u8(), ANY_PORT);
    assert_eq!(any.as_u8(), 255);
}

#[test]
fn route_construction_and_masks() {
    let r = Route::new(7);
    assert_eq!(r.address, 7);
    assert_eq!(r.netmask, 255);
    assert_eq!(r.via, NO_VIA_ADDRESS);

    let d = Route::default_address();
    assert_eq!(d.address, 0);
    assert_eq!(d.netmask, 0);
    assert_eq!(d.via, NO_VIA_ADDRESS);

    // five mask bits leave the low three bits for hosts
    let m = Route::new(7).netmask_bits(5);
    assert_eq!(m.netmask, 0xF8);
    let all = Route::new(0).netmask_bits(8);
    assert_eq!(all.netmask, 0xFF);

    let v = Route::new(7).via(9);
    assert_eq!(v.via, 9);
}

#[test]
fn config_defaults_and_builders() {
    let c = LibCspConfig::new(5);
    assert_eq!(c.address, 5);
    assert_eq!(c.hostname, "{hostname unspecified}");
    assert_eq!(c.model, "{model unspecified}");
    assert_eq!(c.revision, "{revision unspecified}");
    assert_eq!(c.conn_max, 10);
    assert_eq!(c.conn_queue_length, 10);
    assert_eq!(c.fifo_length, 25);
    assert_eq!(c.port_max_bind, 24);
    assert_eq!(c.rdp_max_window, 20);
    assert_eq!(c.buffers, 10);
    assert_eq!(c.buffer_data_size, 256);
    assert_eq!(c.conn_dfl_so, 0);
    assert_eq!(c.connection_backlog, 10);

    let c = LibCspConfig::new(1)
        .details("host".to_string(), "model".to_string(), "rev".to_string())
        .conn_max(4)
        .conn_queue_length(5)
        .fifo_length(6)
        .port_max_bind(7)
        .rdp_max_window(8)
        .buffers(99)
        .buffer_data_size(128)
        .conn_dfl_so(3);
    assert_eq!(c.hostname, "host");
    assert_eq!(c.model, "model");
    assert_eq!(c.revision, "rev");
    assert_eq!(c.conn_max, 4);
    assert_eq!(c.conn_queue_length, 5);
    assert_eq!(c.fifo_length, 6);
    assert_eq!(c.port_max_bind, 7);
    assert_eq!(c.rdp_max_window, 8);
    assert_eq!(c.buffers, 99);
    assert_eq!(c.buffer_data_size, 128);
    assert_eq!(c.conn_dfl_so, 3);

    let d = LibCspConfig::default();
    assert_eq!(d.address, 1);
}

#[test]
fn debug_channels_in_level_order() {
    let all = CspDebugChannel::all();
    assert_eq!(
        all,
        vec![
            CspDebugChannel::Error,
            CspDebugChannel::Warn,
            CspDebugChannel::Info,
            CspDebugChannel::Buffer,
            CspDebugChannel::Packet,
            CspDebugChannel::Protocol,
            CspDebugChannel::Lock,
        ]
    );
    assert_eq!(CspDebugChannel::up_to_error(), vec![CspDebugChannel::Error]);
    assert_eq!(
        CspDebugChannel::up_to_warn(),
        vec![CspDebugChannel::Error, CspDebugChannel::Warn]
    );
    assert_eq!(
        CspDebugChannel::up_to_info(),
        vec![CspDebugChannel::Error, CspDebugChannel::Warn, CspDebugChannel::Info]
    );
    assert_eq!(
        CspDebugChannel::Buffer.up_to(),
        vec![
            CspDebugChannel::Error,
            CspDebugChannel::Warn,
            CspDebugChannel::Info,
            CspDebugChannel::Buffer,
        ]
    );
}
