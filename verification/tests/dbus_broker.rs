use emskin_dbus::broker::state::BrokerError;
use emskin_dbus::dbus::frame::{Frame, Kind};
use emskin_dbus::dbus::args::Arg;
use emskin_dbus::dbus::message::parse_header;
use emskin_dbus::dbus::sasl::SaslError;
use emskin_dbus::dbus_broker::{
    parse_unix_bus_address, read_again, AcceptError, AcceptEvent, ConnId, DbusBroker, FlushStep,
    PumpError, PumpOutcome, ReadEvent, WriteEvent,
};

#[test]
fn main_parses_plain_unix_path_form() {
    let p = parse_unix_bus_address("unix:path=/run/user/1000/bus").unwrap();
    assert_eq!(p, "/run/user/1000/bus");
}

#[test]
fn main_parses_unix_path_with_guid_suffix() {
    let p = parse_unix_bus_address("unix:path=/run/user/1000/bus,guid=deadbeef").unwrap();
    assert_eq!(p, "/run/user/1000/bus");
}

#[test]
fn main_rejects_tcp_scheme() {
    assert!(parse_unix_bus_address("tcp:host=localhost,port=1234").is_err());
}

#[test]
fn rejects_abstract_scheme() {
    assert!(parse_unix_bus_address("unix:abstract=dbus-xyz").is_err());
}

#[test]
fn dbus_broker_parses_plain_unix_path_form() {
    let p = parse_unix_bus_address("unix:path=/run/user/1000/bus").unwrap();
    assert_eq!(p, "/run/user/1000/bus");
}

#[test]
fn dbus_broker_parses_unix_path_with_guid_suffix() {
    let p = parse_unix_bus_address("unix:path=/run/user/1000/bus,guid=deadbeef").unwrap();
    assert_eq!(p, "/run/user/1000/bus");
}

#[test]
fn dbus_broker_rejects_tcp_scheme() {
    assert!(parse_unix_bus_address("tcp:host=localhost,port=1234").is_err());
}

#[test]
fn odd_addresses() {
    assert_eq!(parse_unix_bus_address("unix:path=").unwrap(), "");
    assert_eq!(parse_unix_bus_address("unix:path=,x").unwrap(), "");
    assert_eq!(parse_unix_bus_address("unix:path=/ü,é").unwrap(), "/ü");
    let err = parse_unix_bus_address("unix:pat").unwrap_err();
    assert_eq!(err.message(), "unsupported bus scheme: unix:pat");
}

#[test]
fn set_offset_round_trip() {
    let mut b = DbusBroker::new();
    assert_eq!(b.offset(), None);
    b.set_offset(Some((10, 20)));
    assert_eq!(b.offset(), Some((10, 20)));
    b.set_offset(None);
    assert_eq!(b.offset(), None);
}

fn set_cursor_rect(serial: u32, coords: (i32, i32, i32, i32)) -> Vec<u8> {
    let mut frame = Frame::signal("/a", "org.fcitx.Fcitx.InputContext1", "SetCursorRect")
        .serial(serial)
        .destination("org.fcitx.Fcitx5")
        .body_args()
        .arg(&Arg::I32(coords.0))
        .arg(&Arg::I32(coords.1))
        .arg(&Arg::I32(coords.2))
        .arg(&Arg::I32(coords.3))
        .done()
        .build();
    frame.kind = Kind::MethodCall;
    frame.encode()
}

fn connected(broker: &mut DbusBroker) -> ConnId {
    let accepted = broker
        .accept_one(AcceptEvent::Connected {
            client_fd: 5,
            upstream_fd: 6,
        })
        .unwrap()
        .unwrap();
    assert_eq!(accepted.client_fd, 5);
    assert_eq!(accepted.upstream_fd, 6);
    accepted.id
}

#[test]
fn client_to_upstream_applies_offset() {
    let mut broker = DbusBroker::new();
    broker.set_offset(Some((50, 60)));
    let id = connected(&mut broker);

    let handshake = b"\0AUTH EXTERNAL 30\r\nBEGIN\r\n";
    let call = set_cursor_rect(7, (100, 200, 10, 20));
    let mut payload = Vec::from(&handshake[..]);
    payload.extend_from_slice(&call);
    assert_eq!(
        broker.pump_client_to_upstream(id, ReadEvent::Data(&payload)),
        Ok(PumpOutcome::Active)
    );

    let got = broker.upstream_waiting(id).to_vec();
    assert!(got.starts_with(handshake), "handshake should pass through");
    let msg_bytes = &got[handshake.len()..];
    let hdr = parse_header(msg_bytes).unwrap();
    assert_eq!(hdr.member.as_deref(), Some("SetCursorRect"));
    let body_start = msg_bytes.len() - hdr.body_len;
    let body = &msg_bytes[body_start..];
    assert_eq!(i32::from_le_bytes(body[0..4].try_into().unwrap()), 150);
    assert_eq!(i32::from_le_bytes(body[4..8].try_into().unwrap()), 260);
    assert_eq!(i32::from_le_bytes(body[8..12].try_into().unwrap()), 10);
    assert_eq!(i32::from_le_bytes(body[12..16].try_into().unwrap()), 20);

    broker.remove_connection(id);
    assert!(broker.upstream_waiting(id).is_empty());
}

#[test]
fn without_an_offset_bytes_pass_through() {
    let mut broker = DbusBroker::default();
    let id = connected(&mut broker);
    let mut payload = b"\0BEGIN\r\n".to_vec();
    payload.extend_from_slice(&set_cursor_rect(1, (1, 2, 3, 4)));
    let (a, b) = payload.split_at(30);
    broker.pump_client_to_upstream(id, ReadEvent::Data(a)).unwrap();
    assert_eq!(broker.upstream_waiting(id), b"\0BEGIN\r\n");
    broker.pump_client_to_upstream(id, ReadEvent::Data(b)).unwrap();
    assert_eq!(broker.upstream_waiting(id), payload.as_slice());
}

#[test]
fn accepting_follows_what_happened() {
    let mut broker = DbusBroker::new();
    assert_eq!(broker.accept_one(AcceptEvent::NothingPending), Ok(None));
    assert_eq!(broker.accept_one(AcceptEvent::DialFailed), Ok(None));
    assert_eq!(
        broker.accept_one(AcceptEvent::AcceptFailed),
        Err(AcceptError::Accept)
    );
    assert_eq!(
        broker.accept_one(AcceptEvent::SetupFailed),
        Err(AcceptError::Setup)
    );
    let a = connected(&mut broker);
    broker.remove_connection(a);
    let b = connected(&mut broker);
    assert_ne!(a, b);
}

#[test]
fn reads_are_followed() {
    let mut broker = DbusBroker::new();
    let id = connected(&mut broker);
    assert_eq!(
        broker.pump_client_to_upstream(id, ReadEvent::Eof),
        Ok(PumpOutcome::PeerClosed)
    );
    assert_eq!(
        broker.pump_client_to_upstream(id, ReadEvent::NotNow),
        Ok(PumpOutcome::Active)
    );
    assert_eq!(
        broker.pump_client_to_upstream(id, ReadEvent::Failed),
        Err(PumpError::Read)
    );
    assert_eq!(
        broker.pump_client_to_upstream(id, ReadEvent::Data(b"x")),
        Err(PumpError::Protocol(BrokerError::Sasl(
            SaslError::MissingNulPrefix
        )))
    );
    assert_eq!(
        broker.pump_upstream_to_client(id, ReadEvent::Eof),
        Ok(PumpOutcome::PeerClosed)
    );
    assert_eq!(
        broker.pump_upstream_to_client(id, ReadEvent::NotNow),
        Ok(PumpOutcome::Active)
    );
    assert_eq!(
        broker.pump_upstream_to_client(id, ReadEvent::Failed),
        Err(PumpError::Read)
    );
    assert_eq!(
        broker.pump_upstream_to_client(id, ReadEvent::Data(b"any bytes")),
        Ok(PumpOutcome::Active)
    );
    assert_eq!(broker.client_waiting(id), b"any bytes");

    broker.remove_connection(id);
    assert_eq!(
        broker.pump_client_to_upstream(id, ReadEvent::Data(b"\0")),
        Ok(PumpOutcome::PeerClosed)
    );
    assert_eq!(
        broker.pump_upstream_to_client(id, ReadEvent::Data(b"\0")),
        Ok(PumpOutcome::PeerClosed)
    );
    assert!(broker.client_waiting(id).is_empty());
}

#[test]
fn waiting_bytes_leave_in_order() {
    let mut broker = DbusBroker::new();
    let id = connected(&mut broker);
    let other = connected(&mut broker);
    broker
        .pump_upstream_to_client(id, ReadEvent::Data(b"abcdef"))
        .unwrap();
    broker
        .pump_upstream_to_client(other, ReadEvent::Data(b"zz"))
        .unwrap();
    assert_eq!(
        broker.flush_client_out(id, WriteEvent::Wrote(2)),
        FlushStep::Write
    );
    assert_eq!(broker.client_waiting(id), b"cdef");
    broker
        .pump_upstream_to_client(id, ReadEvent::Data(b"gh"))
        .unwrap();
    assert_eq!(broker.client_waiting(id), b"cdefgh");
    assert_eq!(
        broker.flush_client_out(id, WriteEvent::Interrupted),
        FlushStep::Write
    );
    assert_eq!(
        broker.flush_client_out(id, WriteEvent::WouldBlock),
        FlushStep::Stop { pending: true }
    );
    assert_eq!(
        broker.flush_client_out(id, WriteEvent::Wrote(0)),
        FlushStep::Stop { pending: true }
    );
    assert_eq!(
        broker.flush_client_out(id, WriteEvent::Failed),
        FlushStep::Failed
    );
    assert_eq!(broker.client_waiting(id), b"cdefgh");
    assert_eq!(
        broker.flush_client_out(id, WriteEvent::Wrote(6)),
        FlushStep::Stop { pending: false }
    );
    assert!(broker.client_waiting(id).is_empty());
    assert_eq!(
        broker.flush_client_out(id, WriteEvent::Interrupted),
        FlushStep::Stop { pending: false }
    );
    assert_eq!(broker.client_waiting(other), b"zz");

    broker
        .pump_client_to_upstream(id, ReadEvent::Data(b"\0AUTH"))
        .unwrap();
    assert_eq!(
        broker.flush_upstream_out(id, WriteEvent::Wrote(4)),
        FlushStep::Write
    );
    assert_eq!(broker.upstream_waiting(id), b"H");
    broker.remove_connection(id);
    assert_eq!(
        broker.flush_upstream_out(id, WriteEvent::Wrote(4)),
        FlushStep::Stop { pending: false }
    );
    assert_eq!(
        broker.flush_client_out(id, WriteEvent::Failed),
        FlushStep::Stop { pending: false }
    );
}

#[test]
fn a_pump_reads_until_nothing_is_left() {
    assert!(read_again(&ReadEvent::Data(b"x")));
    assert!(!read_again(&ReadEvent::NotNow));
    assert!(!read_again(&ReadEvent::Eof));
    assert!(!read_again(&ReadEvent::Failed));
}
