use emskin_dbus::broker::apply_cursor_rewrites;
use emskin_dbus::broker::state::{BrokerError, ConnectionState};
use emskin_dbus::dbus::frame::{Frame, Kind};
use emskin_dbus::dbus::args::Arg;
use emskin_dbus::dbus::message::{parse_header, Endian, MessageError, MessageType};
use emskin_dbus::dbus::sasl::{find_begin_end, SaslError, MAX_AUTH_BUFFER};

fn pad_to(out: &mut Vec<u8>, bound: usize) {
    while out.len() % bound != 0 {
        out.push(0);
    }
}

fn push_string_field(out: &mut Vec<u8>, code: u8, sig: &str, value: &str) {
    pad_to(out, 8);
    out.push(code);
    out.push(sig.len() as u8);
    out.extend_from_slice(sig.as_bytes());
    out.push(0);
    pad_to(out, 4);
    out.extend_from_slice(&(value.len() as u32).to_le_bytes());
    out.extend_from_slice(value.as_bytes());
    out.push(0);
}

fn build_hello(serial: u32) -> Vec<u8> {
    let mut fields = Vec::new();
    push_string_field(&mut fields, 1, "o", "/org/freedesktop/DBus");
    push_string_field(&mut fields, 2, "s", "org.freedesktop.DBus");
    push_string_field(&mut fields, 3, "s", "Hello");
    push_string_field(&mut fields, 6, "s", "org.freedesktop.DBus");

    let mut msg = Vec::new();
    msg.extend_from_slice(&[b'l', 1, 0, 1]);
    msg.extend_from_slice(&0u32.to_le_bytes());
    msg.extend_from_slice(&serial.to_le_bytes());
    msg.extend_from_slice(&(fields.len() as u32).to_le_bytes());
    msg.extend_from_slice(&fields);
    pad_to(&mut msg, 8);
    msg
}

fn handshake() -> Vec<u8> {
    b"\0AUTH EXTERNAL 30\r\nNEGOTIATE_UNIX_FD\r\nBEGIN\r\n".to_vec()
}

#[test]
fn handshake_only_feed_forwards_verbatim_and_stays_in_auth() {
    let mut st = ConnectionState::new();
    let chunk = b"\0AUTH EXTERNAL 30\r\n";
    let out = st.client_feed(chunk).unwrap();
    assert_eq!(out.forward, chunk);
    assert!(out.messages.is_empty());
    assert!(!st.is_authed());
}

#[test]
fn full_handshake_transitions_to_message_phase() {
    let mut st = ConnectionState::new();
    let chunk = handshake();
    let out = st.client_feed(&chunk).unwrap();
    assert_eq!(out.forward, chunk);
    assert!(out.messages.is_empty());
    assert!(st.is_authed());
}

#[test]
fn handshake_plus_hello_in_one_chunk() {
    let mut st = ConnectionState::new();
    let hello = build_hello(1);
    let mut chunk = handshake();
    chunk.extend_from_slice(&hello);

    let out = st.client_feed(&chunk).unwrap();
    assert_eq!(out.forward, chunk);
    assert_eq!(out.messages.len(), 1);
    let msg = &out.messages[0];
    assert_eq!(msg.header.member.as_deref(), Some("Hello"));
    assert_eq!(msg.header.msg_type, MessageType::MethodCall);
    assert_eq!(msg.header.endian, Endian::Little);
    assert_eq!(msg.length, hello.len());
    assert_eq!(msg.offset, chunk.len() - hello.len());
    assert_eq!(&out.forward[msg.range()], hello.as_slice());
}

#[test]
fn handshake_split_across_chunks_locates_begin() {
    let mut st = ConnectionState::new();
    let handshake = handshake();
    let mut forwarded = Vec::new();
    for byte in &handshake {
        let out = st.client_feed(std::slice::from_ref(byte)).unwrap();
        forwarded.extend_from_slice(&out.forward);
        assert!(out.messages.is_empty());
    }
    assert_eq!(forwarded, handshake);
    assert!(st.is_authed());
}

#[test]
fn hello_split_mid_header_buffers_then_completes() {
    let mut st = ConnectionState::new();
    let out = st.client_feed(&handshake()).unwrap();
    assert!(out.forward == handshake());
    assert!(st.is_authed());

    let hello = build_hello(1);
    let (a, b) = hello.split_at(10);
    let out1 = st.client_feed(a).unwrap();
    assert!(out1.forward.is_empty());
    assert!(out1.messages.is_empty());

    let out2 = st.client_feed(b).unwrap();
    assert_eq!(out2.forward, hello);
    assert_eq!(out2.messages.len(), 1);
    assert_eq!(out2.messages[0].header.member.as_deref(), Some("Hello"));
    assert_eq!(out2.messages[0].offset, 0);
    assert_eq!(out2.messages[0].length, hello.len());
}

#[test]
fn hello_byte_by_byte_buffers_then_completes() {
    let mut st = ConnectionState::new();
    st.client_feed(&handshake()).unwrap();

    let hello = build_hello(7);
    let mut forwarded = Vec::new();
    let mut msgs_observed = 0;
    for byte in &hello {
        let out = st.client_feed(std::slice::from_ref(byte)).unwrap();
        forwarded.extend_from_slice(&out.forward);
        msgs_observed += out.messages.len();
    }
    assert_eq!(forwarded, hello);
    assert_eq!(msgs_observed, 1);
}

#[test]
fn two_messages_in_single_feed() {
    let mut st = ConnectionState::new();
    st.client_feed(&handshake()).unwrap();

    let mut combined = build_hello(1);
    combined.extend_from_slice(&build_hello(2));
    let out = st.client_feed(&combined).unwrap();
    assert_eq!(out.forward, combined);
    assert_eq!(out.messages.len(), 2);
    assert_eq!(out.messages[0].header.serial, 1);
    assert_eq!(out.messages[0].offset, 0);
    assert_eq!(out.messages[1].header.serial, 2);
    assert_eq!(out.messages[1].offset, out.messages[0].length);
    assert_eq!(
        out.messages[0].length + out.messages[1].length,
        combined.len()
    );
}

#[test]
fn missing_nul_prefix_errors() {
    let mut st = ConnectionState::new();
    let err = st.client_feed(b"AUTH EXTERNAL\r\n").unwrap_err();
    assert_eq!(err, BrokerError::Sasl(SaslError::MissingNulPrefix));
}

#[test]
fn malformed_message_after_auth_errors() {
    let mut st = ConnectionState::new();
    st.client_feed(&handshake()).unwrap();
    let mut bad = vec![b'X', 1, 0, 1];
    bad.extend_from_slice(&[0u8; 12]);
    let err = st.client_feed(&bad).unwrap_err();
    assert!(matches!(
        err,
        BrokerError::Message(MessageError::InvalidEndian(b'X'))
    ));
}

#[test]
fn bus_feed_forwards_bytes_verbatim() {
    let mut st = ConnectionState::new();
    let chunk = b"anything at all: OK 0123456789abcdef0123\r\n";
    let out = st.bus_feed(chunk).unwrap();
    assert_eq!(out.forward, chunk);
    assert!(out.messages.is_empty());
}

#[test]
fn bus_feed_is_independent_of_client_phase() {
    let mut st = ConnectionState::new();
    let out = st.bus_feed(b"DATA\r\n").unwrap();
    assert_eq!(out.forward, b"DATA\r\n");
    assert!(!st.is_authed());
}

#[test]
fn any_cut_of_a_stream_gives_the_same() {
    let mut stream = handshake();
    stream.extend_from_slice(&build_hello(1));
    stream.extend_from_slice(&cursor_call("SetCursorRect", &[1, 2, 3, 4]));
    stream.extend_from_slice(&build_hello(3)[..40]);
    let mut whole = ConnectionState::new();
    let all = whole.client_feed(&stream).unwrap();
    assert_eq!(all.messages.len(), 2);
    for cut in 0..=stream.len() {
        let mut st = ConnectionState::new();
        let first = st.client_feed(&stream[..cut]).unwrap();
        let second = st.client_feed(&stream[cut..]).unwrap();
        let mut joined = first.forward.clone();
        joined.extend_from_slice(&second.forward);
        assert_eq!(joined, all.forward);
        let mut messages: Vec<(u32, usize)> = Vec::new();
        for m in &first.messages {
            messages.push((m.header.serial, m.offset));
        }
        for m in &second.messages {
            messages.push((m.header.serial, m.offset + first.forward.len()));
        }
        let expected: Vec<(u32, usize)> = all
            .messages
            .iter()
            .map(|m| (m.header.serial, m.offset))
            .collect();
        assert_eq!(messages, expected);
    }
}

#[test]
fn a_refused_stream_stays_refused() {
    let mut st = ConnectionState::new();
    st.client_feed(b"\0AUTH").unwrap();
    let long = vec![b'x'; MAX_AUTH_BUFFER];
    assert_eq!(
        st.client_feed(&long),
        Err(BrokerError::Sasl(SaslError::HandshakeTooLong))
    );
    assert_eq!(
        st.client_feed(b"\r\nBEGIN\r\n"),
        Err(BrokerError::Sasl(SaslError::HandshakeTooLong))
    );

    let mut st = ConnectionState::new();
    st.client_feed(&handshake()).unwrap();
    let mut huge = vec![b'l', 1, 0, 1];
    huge.extend_from_slice(&u32::MAX.to_le_bytes());
    huge.extend_from_slice(&[1, 0, 0, 0, 0, 0, 0, 0]);
    assert!(matches!(
        st.client_feed(&huge),
        Err(BrokerError::Message(MessageError::MessageTooLarge(_)))
    ));
}

#[test]
fn the_end_of_a_handshake_is_found() {
    assert_eq!(find_begin_end(b""), Ok(None));
    assert_eq!(find_begin_end(b"\0"), Ok(None));
    assert_eq!(find_begin_end(b"x"), Err(SaslError::MissingNulPrefix));
    assert_eq!(find_begin_end(b"\0BEGIN\r\n"), Ok(Some(8)));
    assert_eq!(find_begin_end(b"\0BEGIN\r"), Ok(None));
    assert_eq!(find_begin_end(b"\0BEGINBEGIN\r\nBEGIN\r\n"), Ok(Some(13)));
    let mut exact = vec![0u8; MAX_AUTH_BUFFER - 7];
    exact.extend_from_slice(b"BEGIN\r\n");
    assert_eq!(find_begin_end(&exact), Ok(Some(MAX_AUTH_BUFFER)));
    exact.insert(0, 0);
    assert_eq!(find_begin_end(&exact), Err(SaslError::HandshakeTooLong));
    assert_eq!(
        find_begin_end(&vec![0u8; MAX_AUTH_BUFFER]),
        Ok(None)
    );
    assert_eq!(ConnectionState::MAX_AUTH_BUFFER, 16384);
}

#[test]
fn broker_errors_describe_themselves() {
    assert_eq!(
        BrokerError::from(SaslError::MissingNulPrefix).message(),
        "SASL error: handshake does not start with a NUL byte"
    );
    assert_eq!(
        BrokerError::from(SaslError::HandshakeTooLong).message(),
        "SASL error: handshake exceeds maximum"
    );
    assert_eq!(
        BrokerError::from(MessageError::ZeroSerial).message(),
        "message error: message serial is zero"
    );
}

fn cursor_call(member: &str, numbers: &[i32]) -> Vec<u8> {
    let interface = if member == "SetCursorLocation" {
        "org.fcitx.Fcitx.InputContext"
    } else {
        "org.fcitx.Fcitx.InputContext1"
    };
    let mut args = Frame::signal("/ic/1", interface, member)
        .serial(9)
        .body_args();
    for n in numbers {
        args = args.arg(&Arg::I32(*n));
    }
    let mut frame = args.done().build();
    frame.kind = Kind::MethodCall;
    frame.encode()
}

fn rewritten(call: &[u8], delta: (i32, i32)) -> Vec<u8> {
    let mut st = ConnectionState::new();
    st.client_feed(&handshake()).unwrap();
    let mut out = st.client_feed(call).unwrap();
    apply_cursor_rewrites(&mut out, delta);
    out.forward
}

#[test]
fn cursor_calls_are_moved() {
    let call = cursor_call("SetCursorRect", &[100, 200, 10, 20]);
    assert_eq!(
        rewritten(&call, (50, -260)),
        cursor_call("SetCursorRect", &[150, -60, 10, 20])
    );
    let call = cursor_call("SetCursorLocation", &[1, 2]);
    assert_eq!(
        rewritten(&call, (3, 4)),
        cursor_call("SetCursorLocation", &[4, 6])
    );
    let call = cursor_call("SetCursorRect", &[i32::MAX, i32::MIN, 0, 0]);
    assert_eq!(
        rewritten(&call, (1, -1)),
        cursor_call("SetCursorRect", &[i32::MIN, i32::MAX, 0, 0])
    );
}

#[test]
fn other_messages_are_left_alone() {
    for call in [
        build_hello(1),
        cursor_call("SetCursorRect", &[1, 2]),
        cursor_call("SetCursorLocation", &[1, 2, 3, 4]),
        cursor_call("SetCursorRectV3", &[1, 2, 3, 4]),
    ] {
        assert_eq!(rewritten(&call, (7, 8)), call);
    }
}

#[test]
fn moves_in_a_row_add_up_and_are_undone() {
    let call = cursor_call("SetCursorRect", &[5, 6, 7, 8]);
    let once = rewritten(&call, (i32::MAX, 3));
    let twice = rewritten(&once, (2, 4));
    assert_eq!(twice, rewritten(&call, (i32::MIN + 1, 7)));
    assert_eq!(rewritten(&once, (-i32::MAX, -3)), call);
}

#[test]
fn each_message_of_a_chunk_is_moved() {
    let mut chunk = cursor_call("SetCursorRect", &[1, 2, 3, 4]);
    chunk.extend_from_slice(&build_hello(2));
    chunk.extend_from_slice(&cursor_call("SetCursorLocation", &[5, 6]));
    let mut expected = cursor_call("SetCursorRect", &[11, 22, 3, 4]);
    expected.extend_from_slice(&build_hello(2));
    expected.extend_from_slice(&cursor_call("SetCursorLocation", &[15, 26]));
    assert_eq!(rewritten(&chunk, (10, 20)), expected);
}

#[test]
fn headers_are_those_of_the_frames() {
    let call = cursor_call("SetCursorRect", &[1, 2, 3, 4]);
    let header = parse_header(&call).unwrap();
    assert_eq!(header.member.as_deref(), Some("SetCursorRect"));
    assert_eq!(header.signature.as_deref(), Some("iiii"));
    assert_eq!(header.body_len, 16);
    assert_eq!(header.clone(), header);
    assert_eq!(parse_header(&call[..17]), Err(MessageError::TooShort));
}
