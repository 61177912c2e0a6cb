use cio::driver::{Dispatch, EchoDriver, Received, POLL_TIMEOUT_USEC, RECV_BUF_SIZE};
use cio::event::CioEvent;
use cio::flag::CioFlag;
use cio::registry::Registration;

const LISTENER: i32 = 3;

fn started() -> EchoDriver<String> {
    let mut d: EchoDriver<String> = EchoDriver::new();
    let r = d.add_listener(LISTENER);
    assert_eq!(r, Registration { fd: LISTENER, token: LISTENER, flags: CioFlag::READABLE });
    d
}

fn accept(d: &mut EchoDriver<String>, fd: i32, name: &str) {
    assert_eq!(
        d.dispatch(&CioEvent::new(LISTENER, LISTENER, true, false)),
        Dispatch::Accept { listener: LISTENER }
    );
    let (r, displaced) = d.add_stream(fd, name.to_string());
    assert_eq!(r, Registration { fd, token: fd, flags: 3 });
    assert!(displaced.is_none());
}

#[test]
fn single_client_ping_is_echoed() {
    let mut d = started();
    accept(&mut d, 5, "client");
    assert_eq!(d.dispatch(&CioEvent::new(5, 5, true, true)), Dispatch::Receive { fd: 5, writable: true });
    assert_eq!(d.stream(5), Some(&"client".to_string()));
    match d.on_received(5, 4, true) {
        Received::Echo { fd, len } => {
            assert_eq!(fd, 5);
            assert_eq!(len, 4);
            let buf = b"ping";
            assert_eq!(&buf[..len], b"ping");
        }
        _ => panic!("expected an echo"),
    }
    assert_eq!(d.connection_count(), 1);
}

#[test]
fn client_close_tears_stream_down_once() {
    let mut d = started();
    accept(&mut d, 5, "client");
    match d.on_received(5, 0, true) {
        Received::Close { fd, stream } => {
            assert_eq!(fd, 5);
            assert_eq!(stream, "client");
        }
        _ => panic!("expected a teardown"),
    }
    assert_eq!(d.connection_count(), 0);
    assert!(!d.registry().is_registered(5));
    assert!(matches!(d.on_received(5, 0, true), Received::Unknown { fd: 5 }));
    assert_eq!(d.dispatch(&CioEvent::new(5, 5, true, true)), Dispatch::Unknown { token: 5 });
}

#[test]
fn receive_error_tears_stream_down() {
    let mut d = started();
    accept(&mut d, 7, "client");
    assert!(matches!(d.on_received(7, -1, false), Received::Close { fd: 7, .. }));
    assert_eq!(d.connection_count(), 0);
}

#[test]
fn repeated_accept_close_rounds_leave_nothing() {
    let mut d = started();
    for _ in 0..5 {
        accept(&mut d, 5, "client");
        assert!(matches!(d.on_received(5, 0, false), Received::Close { fd: 5, .. }));
    }
    assert_eq!(d.connection_count(), 0);
    assert_eq!(d.registry().len(), 1);
}

#[test]
fn two_clients_each_echoed_on_own_stream() {
    let mut d = started();
    accept(&mut d, 5, "first");
    accept(&mut d, 6, "second");
    assert_eq!(d.dispatch(&CioEvent::new(6, 6, true, true)), Dispatch::Receive { fd: 6, writable: true });
    assert!(matches!(d.on_received(6, 4, true), Received::Echo { fd: 6, len: 4 }));
    assert_eq!(d.dispatch(&CioEvent::new(5, 5, true, true)), Dispatch::Receive { fd: 5, writable: true });
    assert!(matches!(d.on_received(5, 4, true), Received::Echo { fd: 5, len: 4 }));
    assert_eq!(d.stream(5), Some(&"first".to_string()));
    assert_eq!(d.stream(6), Some(&"second".to_string()));
    assert!(matches!(d.on_received(5, 0, true), Received::Close { fd: 5, .. }));
    assert_eq!(d.stream(6), Some(&"second".to_string()));
}

#[test]
fn shutdown_flag_stops_without_activity() {
    let mut d = started();
    assert_eq!(d.on_tick(false), Some(POLL_TIMEOUT_USEC));
    assert_eq!(POLL_TIMEOUT_USEC, 100_000);
    assert_eq!(d.on_tick(true), None);
    assert!(d.is_stopped());
    assert_eq!(d.on_tick(false), None);
}

#[test]
fn data_without_write_readiness_is_not_echoed() {
    let mut d = started();
    accept(&mut d, 5, "client");
    assert!(matches!(d.on_received(5, 3, false), Received::Idle));
    assert_eq!(d.connection_count(), 1);
}

#[test]
fn full_buffer_is_echoed_whole() {
    let mut d = started();
    accept(&mut d, 5, "client");
    assert!(matches!(d.on_received(5, RECV_BUF_SIZE as i32, true), Received::Echo { fd: 5, len: 256 }));
}

#[test]
fn listener_not_readable_is_idle() {
    let d = started();
    assert_eq!(d.dispatch(&CioEvent::new(LISTENER, LISTENER, false, true)), Dispatch::Idle);
}

#[test]
fn stream_not_readable_is_idle() {
    let mut d = started();
    accept(&mut d, 5, "client");
    assert_eq!(d.dispatch(&CioEvent::new(5, 5, false, true)), Dispatch::Idle);
}

#[test]
fn unknown_token_is_reported() {
    let d = started();
    assert_eq!(d.dispatch(&CioEvent::new(42, 42, true, false)), Dispatch::Unknown { token: 42 });
}

#[test]
fn stream_on_reused_descriptor_displaces_old() {
    let mut d = started();
    accept(&mut d, 5, "old");
    let (_, displaced) = d.add_stream(5, "new".to_string());
    assert_eq!(displaced, Some("old".to_string()));
    assert_eq!(d.connection_count(), 1);
}

#[test]
fn is_listener_finds_listeners_only() {
    let mut d = started();
    d.add_listener(4);
    accept(&mut d, 5, "client");
    assert!(d.is_listener(3));
    assert!(d.is_listener(4));
    assert!(!d.is_listener(5));
}

#[test]
fn remove_stream_hands_stream_back_once() {
    let mut d = started();
    accept(&mut d, 5, "client");
    assert_eq!(d.remove_stream(5), Some("client".to_string()));
    assert!(!d.registry().is_registered(5));
    assert_eq!(d.remove_stream(5), None);
    assert!(d.registry().is_registered(LISTENER));
}
