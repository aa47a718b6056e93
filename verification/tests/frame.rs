use std::borrow::Cow;

use emskin_dbus::dbus::frame::{
    align8, field_code, span, Builder, Endian, Error, Fields, Frame, Kind, Prefix,
    FIXED_HEADER_LEN, MAX_MESSAGE_SIZE,
};
use emskin_dbus::dbus::args::{parse_signature, Arg, ArgKind};
use emskin_dbus::dbus::marshal::FieldValue;

fn hello_call() -> Frame<'static> {
    let mut frame = Frame::signal("/org/freedesktop/DBus", "org.freedesktop.DBus", "Hello")
        .serial(1)
        .destination("org.freedesktop.DBus")
        .build();
    frame.kind = Kind::MethodCall;
    frame
}

#[test]
fn parse_round_trip_method_call() {
    let frame = hello_call();
    let bytes = frame.encode();
    let parsed = Frame::parse(&bytes).unwrap();
    assert_eq!(parsed.kind, Kind::MethodCall);
    assert_eq!(parsed.serial, 1);
    assert_eq!(parsed.fields.member.as_deref(), Some("Hello"));
    assert_eq!(parsed.fields.path.as_deref(), Some("/org/freedesktop/DBus"));
    assert_eq!(
        parsed.fields.destination.as_deref(),
        Some("org.freedesktop.DBus")
    );
    assert!(parsed.body.is_empty());
}

#[test]
fn bytes_needed_reports_full_frame_size() {
    let bytes = hello_call().encode();
    let needed = Frame::bytes_needed(&bytes[..FIXED_HEADER_LEN])
        .unwrap()
        .unwrap();
    assert_eq!(needed, bytes.len());
}

#[test]
fn bytes_needed_returns_none_before_full_fixed_header() {
    let bytes = hello_call().encode();
    for n in 0..FIXED_HEADER_LEN {
        assert_eq!(Frame::bytes_needed(&bytes[..n]).unwrap(), None);
    }
}

#[test]
fn bytes_needed_rejects_wrong_protocol_version() {
    let mut buf = vec![b'l', 1, 0, 99];
    buf.extend_from_slice(&[0u8; 12]);
    assert_eq!(
        Frame::bytes_needed(&buf),
        Err(Error::WrongProtocolVersion(99))
    );
}

#[test]
fn parse_rejects_zero_serial() {
    let mut bytes = hello_call().encode();
    bytes[8..12].copy_from_slice(&0u32.to_le_bytes());
    assert_eq!(Frame::parse(&bytes), Err(Error::ZeroSerial));
}

#[test]
fn method_return_round_trip() {
    let request = hello_call();
    let reply = Frame::method_return(&request)
        .serial(42)
        .body(&Arg::Bool(true))
        .build();
    let bytes = reply.encode();
    let parsed = Frame::parse(&bytes).unwrap();
    assert_eq!(parsed.kind, Kind::MethodReturn);
    assert_eq!(parsed.serial, 42);
    assert_eq!(parsed.fields.reply_serial, Some(1));
    assert_eq!(parsed.fields.signature.as_deref(), Some("b"));
    assert_eq!(parsed.body.len(), 4);
    assert_eq!(parsed.decode_body(), Some(vec![Arg::Bool(true)]));
}

#[test]
fn signal_round_trip_with_string_body() {
    let signal = Frame::signal("/ic/7", "org.fcitx.Fcitx.InputContext1", "CommitString")
        .serial(99)
        .destination(":1.42")
        .body(&Arg::Str("你好".to_string()))
        .build();
    let bytes = signal.encode();
    let parsed = Frame::parse(&bytes).unwrap();
    assert_eq!(parsed.kind, Kind::Signal);
    assert_eq!(parsed.fields.member.as_deref(), Some("CommitString"));
    assert_eq!(parsed.fields.signature.as_deref(), Some("s"));
    assert_eq!(
        parsed.decode_body(),
        Some(vec![Arg::Str("你好".to_string())])
    );
}

#[test]
fn body_args_two_args_oay() {
    let request = hello_call();
    let uuid: Vec<u8> = vec![0xAB; 16];
    let reply = Frame::method_return(&request)
        .serial(11)
        .body_args()
        .arg(&Arg::ObjectPath("/ic/7".to_string()))
        .arg(&Arg::Bytes(uuid))
        .done()
        .build();
    let bytes = reply.encode();
    let parsed = Frame::parse(&bytes).unwrap();
    assert_eq!(parsed.fields.signature.as_deref(), Some("oay"));
    // 4 (path len) + 5 ("/ic/7") + 1 (NUL) + 2 (pad) + 4 (array len) + 16
    assert_eq!(parsed.body.len(), 32);
}

#[test]
fn body_args_three_strings_for_name_owner_changed() {
    let signal = Frame::signal(
        "/org/freedesktop/DBus",
        "org.freedesktop.DBus",
        "NameOwnerChanged",
    )
    .serial(7)
    .body_args()
    .arg(&Arg::Str("org.fcitx.Fcitx5".to_string()))
    .arg(&Arg::Str("".to_string()))
    .arg(&Arg::Str(":1.42".to_string()))
    .done()
    .build();
    let bytes = signal.encode();
    let parsed = Frame::parse(&bytes).unwrap();
    assert_eq!(parsed.fields.signature.as_deref(), Some("sss"));
    assert_eq!(
        parsed.decode_body(),
        Some(vec![
            Arg::Str("org.fcitx.Fcitx5".to_string()),
            Arg::Str("".to_string()),
            Arg::Str(":1.42".to_string()),
        ])
    );
}

#[test]
fn empty_body_method_return_has_no_signature() {
    let request = hello_call();
    let reply = Frame::method_return(&request).serial(5).build();
    let bytes = reply.encode();
    let parsed = Frame::parse(&bytes).unwrap();
    assert_eq!(parsed.fields.signature, None);
    assert_eq!(parsed.body.len(), 0);
}

#[test]
fn error_round_trip() {
    let request = hello_call();
    let frame = Frame::error(&request, "org.example.Error.NoSuchIC")
        .serial(7)
        .body(&Arg::Str("ic_id not found".to_string()))
        .build();
    let bytes = frame.encode();
    let parsed = Frame::parse(&bytes).unwrap();
    assert_eq!(parsed.kind, Kind::Error);
    assert_eq!(
        parsed.fields.error_name.as_deref(),
        Some("org.example.Error.NoSuchIC")
    );
    assert_eq!(parsed.fields.reply_serial, Some(1));
}

#[test]
fn parse_borrowed_body_zero_copy() {
    let request = hello_call();
    let owned = Frame::method_return(&request)
        .serial(2)
        .body(&Arg::U32(42))
        .build();
    let bytes = owned.encode();
    let parsed = Frame::parse(&bytes).unwrap();
    let body_ptr = parsed.body.as_ptr();
    let buf = bytes.as_ptr_range();
    assert!(body_ptr >= buf.start && body_ptr <= buf.end);
    assert!(matches!(parsed.body, Cow::Borrowed(_)));
}

#[test]
fn into_owned_lifts_to_static() {
    let request = hello_call();
    let frame = Frame::method_return(&request).serial(2).build();
    let bytes = frame.encode();
    let owned: Frame<'static> = Frame::parse(&bytes).unwrap().into_owned();
    drop(bytes);
    assert_eq!(owned.serial, 2);
}

#[test]
fn signature_field_does_not_wrap_in_parens() {
    let request = hello_call();
    let chunks: Vec<(String, i32)> = vec![("hello".to_string(), 0)];
    let frame = Frame::method_return(&request)
        .serial(11)
        .body_args()
        .arg(&Arg::StrI32Pairs(chunks))
        .arg(&Arg::I32(0))
        .done()
        .build();
    let bytes = frame.encode();
    let needle: &[u8] = b"a(si)i\0";
    let bad: &[u8] = b"(a(si)i)\0";
    assert!(bytes.windows(needle.len()).any(|w| w == needle));
    assert!(!bytes.windows(bad.len()).any(|w| w == bad));
    let parsed = Frame::parse(&bytes).unwrap();
    assert_eq!(parsed.fields.signature.as_deref(), Some("a(si)i"));
}

#[test]
fn fields_with_invalid_typed_value_dropped_silently() {
    let raw = vec![
        (
            field_code::PATH,
            Some(FieldValue::Str("not-a-path".to_string())),
        ),
        (
            field_code::MEMBER,
            Some(FieldValue::Str("Hello".to_string())),
        ),
    ];
    let fields = Fields::from_raw(raw);
    assert_eq!(fields.path, None);
    assert_eq!(fields.member.as_deref(), Some("Hello"));
}

#[test]
fn hello_has_the_documented_bytes() {
    let frame = Frame::signal("/a", "b", "c").serial(0x01020304).build();
    let mut expected: Vec<u8> = vec![b'l', 4, 0, 1];
    expected.extend_from_slice(&0u32.to_le_bytes());
    expected.extend_from_slice(&0x01020304u32.to_le_bytes());
    expected.extend_from_slice(&42u32.to_le_bytes());
    expected.extend_from_slice(b"\x01\x01o\0\x02\0\0\0/a\0\0\0\0\0\0");
    expected.extend_from_slice(b"\x02\x01s\0\x01\0\0\0b\0\0\0\0\0\0\0");
    expected.extend_from_slice(b"\x03\x01s\0\x01\0\0\0c\0");
    while expected.len() % 8 != 0 {
        expected.push(0);
    }
    assert_eq!(frame.encode(), expected);
}

#[test]
fn big_endian_frames_are_read_and_written() {
    let mut frame = hello_call();
    frame.endian = Endian::Big;
    frame.serial = 0x0102_0304;
    frame.fields.reply_serial = Some(0x0a0b_0c0d);
    let bytes = frame.encode();
    assert_eq!(bytes[0], b'B');
    assert_eq!(bytes[8..12], [1, 2, 3, 4]);
    let parsed = Frame::parse(&bytes).unwrap();
    assert_eq!(parsed, frame);
    assert_eq!(Frame::bytes_needed(&bytes), Ok(Some(bytes.len())));
}

#[test]
fn every_field_is_read_back() {
    let frame = Frame {
        endian: Endian::Little,
        kind: Kind::Error,
        flags: 3,
        serial: 77,
        fields: Fields {
            path: Some("/x/y_1".to_string()),
            interface: Some("i.f".to_string()),
            member: Some("m".to_string()),
            error_name: Some("e.n".to_string()),
            destination: Some(":1.1".to_string()),
            sender: Some(":1.2".to_string()),
            signature: Some("u(ss)a{sv}".to_string()),
            reply_serial: Some(5),
            unix_fds: Some(2),
        },
        body: Cow::Owned(vec![1, 2, 3]),
    };
    assert_eq!(frame.fields.count(), 9);
    let bytes = frame.encode();
    let mut longer = bytes.clone();
    longer.extend_from_slice(b"what follows");
    assert_eq!(Frame::parse(&bytes).unwrap(), frame);
    assert_eq!(Frame::parse(&longer).unwrap(), frame);
    assert_eq!(frame.clone(), frame);
}

#[test]
fn an_invalid_path_is_left_out() {
    for bad in ["", "x", "/x/", "//x", "/x y", "/é"] {
        let frame = Frame::signal(bad, "a.b", "c").serial(1).build();
        let bytes = frame.encode();
        let parsed = Frame::parse(&bytes).unwrap();
        assert_eq!(parsed.fields.path, None);
        assert_eq!(parsed.fields.member.as_deref(), Some("c"));
    }
    let root = Frame::signal("/", "a.b", "c").serial(1).build();
    let bytes = root.encode();
    assert_eq!(
        Frame::parse(&bytes).unwrap().fields.path.as_deref(),
        Some("/")
    );
}

#[test]
fn a_later_field_wins_and_a_mistyped_one_clears() {
    let fields = Fields::from_raw(vec![
        (field_code::MEMBER, Some(FieldValue::Str("A".to_string()))),
        (field_code::MEMBER, Some(FieldValue::Str("B".to_string()))),
        (field_code::SENDER, Some(FieldValue::Str("S".to_string()))),
        (field_code::SENDER, Some(FieldValue::U32(1))),
        (field_code::REPLY_SERIAL, Some(FieldValue::U32(9))),
        (
            field_code::PATH,
            Some(FieldValue::ObjectPath("/p".to_string())),
        ),
        (field_code::PATH, None),
        (
            field_code::SIGNATURE,
            Some(FieldValue::Signature("s".to_string())),
        ),
        (field_code::SIGNATURE, Some(FieldValue::U32(1))),
        (field_code::UNIX_FDS, None),
        (200, Some(FieldValue::U32(1))),
    ]);
    assert_eq!(fields.member.as_deref(), Some("B"));
    assert_eq!(fields.sender, None);
    assert_eq!(fields.reply_serial, Some(9));
    assert_eq!(fields.path.as_deref(), Some("/p"));
    assert_eq!(fields.signature.as_deref(), Some("s"));
    assert_eq!(fields.unix_fds, None);
    assert_eq!(fields.count(), 4);
}

#[test]
fn each_parse_error_has_an_input() {
    let good = hello_call().encode();
    assert_eq!(Frame::parse(&good[..15]), Err(Error::TooShort));
    assert_eq!(
        Frame::parse(&good[..good.len() - 1]),
        Err(Error::TooShort)
    );
    assert_eq!(Frame::parse(&good[..20]), Err(Error::TooShort));

    let mut bad = good.clone();
    bad[0] = b'X';
    assert_eq!(Frame::parse(&bad), Err(Error::InvalidEndian(b'X')));
    assert_eq!(Frame::bytes_needed(&bad), Err(Error::InvalidEndian(b'X')));

    let mut bad = good.clone();
    bad[1] = 9;
    assert_eq!(Frame::parse(&bad), Err(Error::InvalidKind(9)));
    assert_eq!(Frame::bytes_needed(&bad), Ok(Some(good.len())));

    let mut bad = good.clone();
    bad[3] = 2;
    assert_eq!(Frame::parse(&bad), Err(Error::WrongProtocolVersion(2)));

    let mut bad = good.clone();
    bad[4..8].copy_from_slice(&(MAX_MESSAGE_SIZE as u32).to_le_bytes());
    assert_eq!(
        Frame::bytes_needed(&bad),
        Err(Error::MessageTooLarge(MAX_MESSAGE_SIZE + good.len()))
    );

    let mut bad = good.clone();
    bad[18] = b'?';
    assert!(matches!(
        Frame::parse(&bad),
        Err(Error::HeaderFieldsParse(_))
    ));
}

#[test]
fn from_parts_takes_what_was_read() {
    let bytes = hello_call().encode();
    let prefix = Prefix::read(&bytes).unwrap();
    assert_eq!(prefix.kind, Kind::MethodCall);
    assert_eq!(prefix.body_len, 0);
    let frame = Frame::from_parts(
        &bytes,
        prefix,
        Ok(vec![(
            field_code::MEMBER,
            Some(FieldValue::Str("Other".to_string())),
        )]),
    )
    .unwrap();
    assert_eq!(frame.fields.member.as_deref(), Some("Other"));
    assert_eq!(frame.fields.path, None);
    assert_eq!(
        Frame::from_parts(&bytes, prefix, Err("why".to_string())),
        Err(Error::HeaderFieldsParse("why".to_string()))
    );
}

#[test]
fn errors_describe_themselves() {
    assert_eq!(
        Error::InvalidEndian(0x0a).message(),
        "invalid endian byte: 0x0a"
    );
    assert_eq!(Error::InvalidKind(255).message(), "invalid message kind byte: 255");
    assert_eq!(
        Error::WrongProtocolVersion(10).message(),
        "unsupported protocol version: 10"
    );
    assert_eq!(Error::ZeroSerial.message(), "message serial is zero");
    assert_eq!(
        Error::TooShort.message(),
        "buffer shorter than declared frame"
    );
    assert_eq!(
        Error::SizeOverflow.message(),
        "frame size computation overflowed"
    );
    assert_eq!(
        Error::MessageTooLarge(134217729).message(),
        "frame size 134217729 exceeds maximum"
    );
    assert_eq!(
        Error::HeaderFieldsParse("x".to_string()).message(),
        "header fields parse: x"
    );
}

#[test]
fn every_kind_of_argument_has_its_bytes() {
    let frame = Builder::new(Kind::Signal)
        .serial(1)
        .body_args()
        .arg(&Arg::Bool(true))
        .arg(&Arg::I32(-2))
        .arg(&Arg::U32(7))
        .arg(&Arg::U64(0x0102030405060708))
        .arg(&Arg::Double(1.5f64.to_bits()))
        .arg(&Arg::Str("ab".to_string()))
        .arg(&Arg::ObjectPath("/o".to_string()))
        .arg(&Arg::Bytes(vec![9, 8]))
        .done()
        .build();
    let mut expected: Vec<u8> = Vec::new();
    expected.extend_from_slice(&1u32.to_le_bytes());
    expected.extend_from_slice(&(-2i32).to_le_bytes());
    expected.extend_from_slice(&7u32.to_le_bytes());
    expected.extend_from_slice(&[0; 4]);
    expected.extend_from_slice(&0x0102030405060708u64.to_le_bytes());
    expected.extend_from_slice(&1.5f64.to_le_bytes());
    expected.extend_from_slice(b"\x02\0\0\0ab\0\0");
    expected.extend_from_slice(b"\x02\0\0\0/o\0\0");
    expected.extend_from_slice(b"\x02\0\0\0\x09\x08");
    assert_eq!(frame.body.as_ref(), expected.as_slice());
    assert_eq!(frame.fields.signature.as_deref(), Some("biutdsoay"));
}

#[test]
fn pairs_have_their_bytes() {
    let frame = Builder::new(Kind::Signal)
        .serial(1)
        .body_args()
        .arg(&Arg::U32(5))
        .arg(&Arg::StrPairs(vec![
            ("a".to_string(), "bc".to_string()),
            ("".to_string(), "d".to_string()),
        ]))
        .done()
        .build();
    let mut expected: Vec<u8> = Vec::new();
    expected.extend_from_slice(&5u32.to_le_bytes());
    expected.extend_from_slice(&30u32.to_le_bytes());
    expected.extend_from_slice(b"\x01\0\0\0a\0\0\0");
    expected.extend_from_slice(b"\x02\0\0\0bc\0\0");
    expected.extend_from_slice(b"\0\0\0\0\0\0\0\0");
    expected.extend_from_slice(b"\x01\0\0\0d\0");
    assert_eq!(frame.body.as_ref(), expected.as_slice());
    assert_eq!(frame.fields.signature.as_deref(), Some("ua(ss)"));

    let none = Builder::new(Kind::Signal)
        .body(&Arg::StrPairs(vec![]))
        .build();
    assert_eq!(none.body.as_ref(), [0u8; 8].as_slice());

    let numbered = Builder::new(Kind::Signal)
        .body(&Arg::StrI32Pairs(vec![("ab".to_string(), -1)]))
        .build();
    assert_eq!(
        numbered.body.as_ref(),
        b"\x0c\0\0\0\0\0\0\0\x02\0\0\0ab\0\0\xff\xff\xff\xff".as_slice()
    );
}

#[test]
fn bodies_are_read_back() {
    let args = vec![
        Arg::Bool(false),
        Arg::I32(i32::MIN),
        Arg::U32(u32::MAX),
        Arg::U64(u64::MAX),
        Arg::Double((-0.5f64).to_bits()),
        Arg::Str("ü".to_string()),
        Arg::ObjectPath("/".to_string()),
    ];
    let mut building = Builder::new(Kind::Signal).body_args();
    for arg in &args {
        building = building.arg(arg);
    }
    let frame = building.done().build();
    assert_eq!(frame.decode_body(), Some(args));

    let pairs = Arg::StrPairs(vec![("k".to_string(), "v".to_string())]);
    let frame = Builder::new(Kind::Signal).body(&pairs).build();
    assert_eq!(frame.decode_body(), Some(vec![pairs]));
}

#[test]
fn bodies_without_a_fitting_signature_are_not_read() {
    let mut frame = Builder::new(Kind::Signal).body(&Arg::U32(1)).build();
    assert_eq!(frame.decode_body(), Some(vec![Arg::U32(1)]));
    frame.fields.signature = Some("t".to_string());
    assert_eq!(frame.decode_body(), None);
    frame.fields.signature = Some("?".to_string());
    assert_eq!(frame.decode_body(), None);
    frame.fields.signature = None;
    assert_eq!(frame.decode_body(), None);
    frame.fields.signature = Some("".to_string());
    assert_eq!(frame.decode_body(), Some(vec![]));
    frame.fields.signature = Some("as".to_string());
    assert_eq!(frame.decode_body(), None);
    frame.fields.signature = Some("uu".to_string());
    assert_eq!(frame.decode_body(), None);
}

fn body_of(signature: &str, body: &[u8]) -> Option<Vec<Arg>> {
    let mut frame = Builder::new(Kind::Signal).build();
    frame.fields.signature = Some(signature.to_string());
    frame.body = Cow::Owned(body.to_vec());
    frame.decode_body()
}

#[test]
fn bodies_are_read_strictly() {
    assert_eq!(body_of("b", &[1, 0, 0, 0]), Some(vec![Arg::Bool(true)]));
    assert_eq!(body_of("b", &[2, 0, 0, 0]), None);
    assert_eq!(body_of("u", &[1, 2, 3]), None);
    assert_eq!(
        body_of("u", &[1, 0, 0, 0, 9]),
        Some(vec![Arg::U32(1)])
    );
    assert_eq!(
        body_of("ut", &[1, 0, 0, 0, 0, 0, 0, 0, 2, 0, 0, 0, 0, 0, 0, 0]),
        Some(vec![Arg::U32(1), Arg::U64(2)])
    );
    assert_eq!(
        body_of("ut", &[1, 0, 0, 0, 7, 0, 0, 0, 2, 0, 0, 0, 0, 0, 0, 0]),
        None
    );
    assert_eq!(
        body_of("s", b"\x02\0\0\0ab\0"),
        Some(vec![Arg::Str("ab".to_string())])
    );
    assert_eq!(
        body_of("s", b"\x02\0\0\0ab"),
        Some(vec![Arg::Str("ab".to_string())])
    );
    assert_eq!(body_of("su", b"\x02\0\0\0ab"), None);
    assert_eq!(body_of("s", b"\x02\0\0\0a\0\0"), None);
    assert_eq!(body_of("s", b"\x02\0\0\0a\xff\0"), None);
    assert_eq!(body_of("s", b"\x09\0\0\0ab\0"), None);
    assert_eq!(
        body_of("o", b"\x02\0\0\0/a\0"),
        Some(vec![Arg::ObjectPath("/a".to_string())])
    );
    assert_eq!(body_of("o", b"\x02\0\0\0a/\0"), None);
    assert_eq!(
        body_of("ay", &[2, 0, 0, 0, 8, 9]),
        Some(vec![Arg::Bytes(vec![8, 9])])
    );
    assert_eq!(body_of("ay", &[3, 0, 0, 0, 8, 9]), None);
}

#[test]
fn lists_among_other_arguments_are_read_back() {
    let args = vec![
        Arg::ObjectPath("/ic/7".to_string()),
        Arg::Bytes(vec![0xAB; 16]),
        Arg::StrI32Pairs(vec![("hello".to_string(), 0), ("ü".to_string(), -7)]),
        Arg::I32(3),
        Arg::StrPairs(vec![]),
        Arg::StrPairs(vec![("a".to_string(), "".to_string())]),
        Arg::Double(f64::NAN.to_bits()),
        Arg::StrI32Pairs(vec![]),
        Arg::Bytes(vec![]),
        Arg::Bool(true),
    ];
    let mut building = Builder::new(Kind::Signal).body_args();
    for arg in &args {
        building = building.arg(arg);
    }
    let frame = building.done().build();
    assert_eq!(
        frame.fields.signature.as_deref(),
        Some("oaya(si)ia(ss)a(ss)da(si)ayb")
    );
    assert_eq!(frame.decode_body(), Some(args));
}

#[test]
fn signatures_are_read() {
    assert_eq!(parse_signature(""), Some(vec![]));
    assert_eq!(
        parse_signature("suay"),
        Some(vec![ArgKind::Str, ArgKind::U32, ArgKind::Bytes])
    );
    assert_eq!(
        parse_signature("a(ss)a(si)tdobi"),
        Some(vec![
            ArgKind::StrPairs,
            ArgKind::StrI32Pairs,
            ArgKind::U64,
            ArgKind::Double,
            ArgKind::ObjectPath,
            ArgKind::Bool,
            ArgKind::I32,
        ])
    );
    for other in ["a", "a(s", "a(st)", "(ss)", "ss)", "v", "é", "as", "a(ss"] {
        assert_eq!(parse_signature(other), None);
    }
}

#[test]
fn builders_set_what_they_say() {
    let request = Frame::signal("/a", "b.c", "d")
        .serial(8)
        .sender(":1.5")
        .destination("x.y")
        .flags(1)
        .build();
    assert_eq!(request.flags, 1);
    assert_eq!(request.endian, Endian::Little);
    let reply = Frame::method_return(&request).build();
    assert_eq!(reply.fields.destination.as_deref(), Some(":1.5"));
    assert_eq!(reply.fields.sender.as_deref(), Some("x.y"));
    assert_eq!(reply.fields.reply_serial, Some(8));
    assert_eq!(reply.serial, 0);
    let bare = Frame::method_return(&request).no_destination().build();
    assert_eq!(bare.fields.destination, None);
    let none = Frame::method_return(&request).body_args().done().build();
    assert_eq!(none.fields.signature, None);
}

#[test]
fn alignment_and_spans() {
    assert_eq!(align8(0), Some(0));
    assert_eq!(align8(1), Some(8));
    assert_eq!(align8(8), Some(8));
    assert_eq!(align8(17), Some(24));
    assert_eq!(align8(usize::MAX), None);
    assert_eq!(align8(usize::MAX - 7), Some(usize::MAX - 7));
    assert_eq!(span(3, 4), 3..7);
    assert_eq!(Kind::from_byte(4), Ok(Kind::Signal));
    assert_eq!(Kind::from_byte(0), Err(Error::InvalidKind(0)));
    assert_eq!(Kind::MethodReturn.to_byte(), 2);
}

fn encoded(code: &str, bytes: &[u8]) -> Arg {
    Arg::Encoded {
        code: code.to_string(),
        bytes: bytes.to_vec(),
    }
}

#[test]
fn bodies_of_other_types_are_handed_out_encoded() {
    let point = [1, 0, 0, 0, 2, 0, 0, 0];
    assert_eq!(
        body_of("(ii)", &point),
        Some(vec![encoded("(ii)", &point)])
    );
    assert_eq!(body_of("(ii)", &point[..7]), None);
    let variant = [1, b'u', 0, 0, 7, 0, 0, 0];
    assert_eq!(body_of("v", &variant), Some(vec![encoded("v", &variant)]));
    let bad_variant = [1, b'?', 0, 0, 7, 0, 0, 0];
    assert_eq!(body_of("v", &bad_variant), None);
    assert_eq!(body_of("a", &[0, 0, 0, 0]), None);
}

#[test]
fn values_of_other_types_pass_through_a_message() {
    let names = vec!["a".to_string(), "bcd".to_string()];
    let at = zvariant::serialized::Context::new_dbus(zvariant::LE, 0);
    let bytes = zvariant::to_bytes(at, &names).unwrap().bytes().to_vec();
    let sent = Builder::new(Kind::Signal)
        .serial(7)
        .body(&encoded("as", &bytes))
        .build()
        .encode();
    let received = Frame::parse(&sent).unwrap();
    assert_eq!(received.fields.signature.as_deref(), Some("as"));
    let args = received.decode_body().unwrap();
    assert_eq!(args, vec![encoded("as", &bytes)]);
    let data = zvariant::serialized::Data::new(&received.body[..], at);
    let (read, _): (Vec<String>, usize) = data.deserialize().unwrap();
    assert_eq!(read, names);
}

#[test]
fn an_encoded_argument_is_aligned_for_its_place() {
    let building = Builder::new(Kind::Signal).body_args().arg(&Arg::Bool(true));
    assert_eq!(building.offset(), 4);
    let at = zvariant::serialized::Context::new_dbus(zvariant::LE, building.offset());
    let bytes = zvariant::to_bytes(at, &(1u8, 2u8)).unwrap().bytes().to_vec();
    let frame = building.arg(&encoded("(yy)", &bytes)).done().build();
    assert_eq!(frame.fields.signature.as_deref(), Some("b(yy)"));
    let body = [1, 0, 0, 0, 0, 0, 0, 0, 1, 2];
    assert_eq!(&frame.body[..], &body[..]);
    assert_eq!(frame.decode_body(), Some(vec![encoded("b(yy)", &body)]));
}

#[test]
fn numbers_of_all_sizes_have_their_bytes() {
    let args = vec![
        Arg::U8(5),
        Arg::I16(-2),
        Arg::U8(6),
        Arg::U16(0x0102),
        Arg::I64(i64::MIN + 1),
        Arg::I16(i16::MAX),
        Arg::U16(u16::MAX),
        Arg::I64(-1),
    ];
    let mut building = Builder::new(Kind::Signal).body_args();
    for arg in &args {
        building = building.arg(arg);
    }
    let frame = building.done().build();
    assert_eq!(frame.fields.signature.as_deref(), Some("ynyqxnqx"));
    let mut body = vec![5, 0, 0xfe, 0xff, 6, 0, 2, 1];
    body.extend_from_slice(&[1, 0, 0, 0, 0, 0, 0, 0x80]);
    body.extend_from_slice(&[0xff, 0x7f, 0xff, 0xff, 0, 0, 0, 0]);
    body.extend_from_slice(&[0xff; 8]);
    assert_eq!(&frame.body[..], &body[..]);
    assert_eq!(frame.decode_body(), Some(args));

    assert_eq!(body_of("y", &[]), None);
    assert_eq!(body_of("n", &[1]), None);
    assert_eq!(body_of("yq", &[1, 9, 1, 0]), None);
    let mut frame = Builder::new(Kind::Signal).build();
    frame.endian = Endian::Big;
    frame.fields.signature = Some("qn".to_string());
    frame.body = Cow::Owned(vec![1, 2, 0xff, 0xfe]);
    assert_eq!(
        frame.decode_body(),
        Some(vec![Arg::U16(0x0102), Arg::I16(-2)])
    );
}

#[test]
fn lists_of_bytes_are_read_to_their_length() {
    assert_eq!(
        body_of("ay", &[2, 0, 0, 0, 8, 9, 10]),
        Some(vec![Arg::Bytes(vec![8, 9])])
    );
    assert_eq!(body_of("ay", &[3, 0, 0, 0, 8, 9]), None);
    assert_eq!(body_of("ay", &[0, 0, 0, 0]), Some(vec![Arg::Bytes(vec![])]));
}

#[test]
fn a_built_frame_owns_its_body_and_a_parsed_one_borrows_it() {
    let built = Builder::new(Kind::Signal)
        .serial(3)
        .body(&Arg::U32(4))
        .build();
    assert!(matches!(built.body, Cow::Owned(_)));
    let bytes = built.encode();
    let parsed = Frame::parse(&bytes).unwrap();
    match parsed.body {
        Cow::Borrowed(body) => assert_eq!(body.as_ptr(), bytes[bytes.len() - 4..].as_ptr()),
        Cow::Owned(_) => panic!("the body was copied"),
    }
}
