use cio::address::{bind_kind, connect_kind, Endpoint, Parity, SerialConfig, TransportKind};
use cio::error::CioError;

#[test]
fn tcp_address_parses() {
    match Endpoint::parse("tcp://127.0.0.1:6000") {
        Ok(Endpoint::Tcp { host, port }) => {
            assert_eq!(host, b"127.0.0.1".to_vec());
            assert_eq!(port, 6000);
        }
        other => panic!("unexpected {:?}", other),
    }
}

#[test]
fn tcp_port_after_last_colon() {
    match Endpoint::parse("tcp://::1:80") {
        Ok(Endpoint::Tcp { host, port }) => {
            assert_eq!(host, b"::1".to_vec());
            assert_eq!(port, 80);
        }
        other => panic!("unexpected {:?}", other),
    }
}

#[test]
fn tcp_largest_port() {
    assert!(matches!(Endpoint::parse("tcp://h:65535"), Ok(Endpoint::Tcp { port: 65535, .. })));
    assert!(matches!(Endpoint::parse("tcp://h:65536"), Err(CioError::Address)));
    assert!(matches!(Endpoint::parse("tcp://h:0065535"), Ok(Endpoint::Tcp { port: 65535, .. })));
}

#[test]
fn tcp_malformed_rejected() {
    assert!(matches!(Endpoint::parse("tcp://127.0.0.1"), Err(CioError::Address)));
    assert!(matches!(Endpoint::parse("tcp://:80"), Err(CioError::Address)));
    assert!(matches!(Endpoint::parse("tcp://h:"), Err(CioError::Address)));
    assert!(matches!(Endpoint::parse("tcp://h:8x"), Err(CioError::Address)));
}

#[test]
fn unix_address_parses() {
    match Endpoint::parse("unix:///tmp/cio") {
        Ok(Endpoint::Unix { path }) => assert_eq!(path, b"/tmp/cio".to_vec()),
        other => panic!("unexpected {:?}", other),
    }
    assert!(matches!(Endpoint::parse("unix://"), Err(CioError::Address)));
}

#[test]
fn serial_address_parses() {
    match Endpoint::parse("com:///dev/ttyUSB0?baud=115200&data_bit=8&stop_bit=1&parity=n") {
        Ok(Endpoint::Serial { device, config }) => {
            assert_eq!(device, b"/dev/ttyUSB0".to_vec());
            assert_eq!(
                config,
                SerialConfig { baud: 115200, data_bit: 8, stop_bit: 1, parity: Parity::Off }
            );
        }
        other => panic!("unexpected {:?}", other),
    }
}

#[test]
fn serial_parities() {
    assert!(matches!(
        Endpoint::parse("com://d?baud=9600&data_bit=7&stop_bit=2&parity=o"),
        Ok(Endpoint::Serial { config: SerialConfig { parity: Parity::Odd, baud: 9600, data_bit: 7, stop_bit: 2 }, .. })
    ));
    assert!(matches!(
        Endpoint::parse("com://d?baud=9600&data_bit=7&stop_bit=2&parity=e"),
        Ok(Endpoint::Serial { config: SerialConfig { parity: Parity::Even, .. }, .. })
    ));
    assert!(matches!(
        Endpoint::parse("com://d?baud=9600&data_bit=7&stop_bit=2&parity=x"),
        Err(CioError::Address)
    ));
}

#[test]
fn serial_malformed_rejected() {
    assert!(matches!(Endpoint::parse("com://d"), Err(CioError::Address)));
    assert!(matches!(Endpoint::parse("com://?baud=1&data_bit=8&stop_bit=1&parity=n"), Err(CioError::Address)));
    assert!(matches!(Endpoint::parse("com://d?baud=1&stop_bit=1&data_bit=8&parity=n"), Err(CioError::Address)));
    assert!(matches!(Endpoint::parse("com://d?baud=1&data_bit=256&stop_bit=1&parity=n"), Err(CioError::Address)));
    assert!(matches!(Endpoint::parse("com://d?baud=1&data_bit=8&stop_bit=1&parity=nn"), Err(CioError::Address)));
    assert!(matches!(Endpoint::parse("com://d?baud=4294967296&data_bit=8&stop_bit=1&parity=n"), Err(CioError::Address)));
}

#[test]
fn serial_largest_baud() {
    assert!(matches!(
        Endpoint::parse("com://d?baud=4294967295&data_bit=255&stop_bit=0&parity=n"),
        Ok(Endpoint::Serial { config: SerialConfig { baud: 4294967295, data_bit: 255, stop_bit: 0, .. }, .. })
    ));
}

#[test]
fn unknown_scheme_rejected() {
    assert!(matches!(Endpoint::parse("udp://h:1"), Err(CioError::Address)));
    assert!(matches!(Endpoint::parse(""), Err(CioError::Address)));
}

#[test]
fn bind_kinds() {
    assert_eq!(bind_kind("tcp://127.0.0.1:6000"), Ok(TransportKind::TcpListener));
    assert_eq!(bind_kind("unix:///tmp/cio"), Ok(TransportKind::UnixListener));
    assert_eq!(
        bind_kind("com:///dev/ttyUSB0?baud=115200&data_bit=8&stop_bit=1&parity=n"),
        Err(CioError::Address)
    );
    assert_eq!(bind_kind("nonsense"), Err(CioError::Address));
}

#[test]
fn connect_kinds() {
    assert_eq!(connect_kind("tcp://127.0.0.1:6000"), Ok(TransportKind::TcpStream));
    assert_eq!(connect_kind("unix:///tmp/cio"), Ok(TransportKind::UnixStream));
    assert_eq!(
        connect_kind("com:///dev/ttyUSB0?baud=115200&data_bit=8&stop_bit=1&parity=n"),
        Ok(TransportKind::SerialStream)
    );
    assert_eq!(connect_kind("tcp://h"), Err(CioError::Address));
}
