use serde_json::Value;

use emskin_dbus::codec::{
    parsed_payload, read_frame, write_frame, CodecError, CodecErrorKind, FrameReader,
    MAX_FRAME_SIZE,
};
use emskin_dbus::protocol::{EmskinToProxy, ProxyToEmskin};

fn number(n: i64) -> Value {
    Value::from(n)
}

fn rect(r: &[i32; 4]) -> Value {
    Value::Array(r.iter().map(|n| number(*n as i64)).collect())
}

fn tagged(tag: &str, fields: Vec<(&str, Value)>) -> Vec<u8> {
    let mut map = serde_json::Map::new();
    map.insert("type".to_string(), Value::String(tag.to_string()));
    for (key, value) in fields {
        map.insert(key.to_string(), value);
    }
    serde_json::to_vec(&Value::Object(map)).unwrap()
}

fn to_payload(msg: &EmskinToProxy) -> Vec<u8> {
    match msg {
        EmskinToProxy::ClientBorn { pid, ctx } => tagged(
            "client_born",
            vec![("pid", number(*pid as i64)), ("ctx", number(*ctx as i64))],
        ),
        EmskinToProxy::FocusChanged { ctx, rect: r } => tagged(
            "focus_changed",
            vec![("ctx", number(*ctx as i64)), ("rect", rect(r))],
        ),
        EmskinToProxy::RectChanged { ctx, rect: r } => tagged(
            "rect_changed",
            vec![("ctx", number(*ctx as i64)), ("rect", rect(r))],
        ),
        EmskinToProxy::BulkRects { updates } => tagged(
            "bulk_rects",
            vec![(
                "updates",
                Value::Array(
                    updates
                        .iter()
                        .map(|(ctx, r)| Value::Array(vec![number(*ctx as i64), rect(r)]))
                        .collect(),
                ),
            )],
        ),
        EmskinToProxy::FocusCleared => tagged("focus_cleared", vec![]),
        EmskinToProxy::WorkspaceSwitched { workspace_id } => tagged(
            "workspace_switched",
            vec![("workspace_id", number(*workspace_id as i64))],
        ),
        EmskinToProxy::CtxGone { ctx } => tagged("ctx_gone", vec![("ctx", number(*ctx as i64))]),
        EmskinToProxy::Shutdown => tagged("shutdown", vec![]),
    }
}

fn as_u64(v: &Value) -> u64 {
    v.as_u64().unwrap()
}

fn as_rect(v: &Value) -> [i32; 4] {
    let a = v.as_array().unwrap();
    assert_eq!(a.len(), 4);
    [0, 1, 2, 3].map(|i: usize| a[i].as_i64().unwrap() as i32)
}

fn from_payload(payload: &[u8]) -> Result<EmskinToProxy, String> {
    let v: Value = serde_json::from_slice(payload).map_err(|e| e.to_string())?;
    Ok(match v["type"].as_str().unwrap() {
        "client_born" => EmskinToProxy::ClientBorn {
            pid: as_u64(&v["pid"]) as u32,
            ctx: as_u64(&v["ctx"]),
        },
        "focus_changed" => EmskinToProxy::FocusChanged {
            ctx: as_u64(&v["ctx"]),
            rect: as_rect(&v["rect"]),
        },
        "rect_changed" => EmskinToProxy::RectChanged {
            ctx: as_u64(&v["ctx"]),
            rect: as_rect(&v["rect"]),
        },
        "bulk_rects" => EmskinToProxy::BulkRects {
            updates: v["updates"]
                .as_array()
                .unwrap()
                .iter()
                .map(|u| (as_u64(&u[0]), as_rect(&u[1])))
                .collect(),
        },
        "focus_cleared" => EmskinToProxy::FocusCleared,
        "workspace_switched" => EmskinToProxy::WorkspaceSwitched {
            workspace_id: as_u64(&v["workspace_id"]),
        },
        "ctx_gone" => EmskinToProxy::CtxGone {
            ctx: as_u64(&v["ctx"]),
        },
        "shutdown" => EmskinToProxy::Shutdown,
        other => return Err(other.to_string()),
    })
}

fn next_message(input: &[u8]) -> Result<Option<EmskinToProxy>, CodecError> {
    match read_frame(input)? {
        None => Ok(None),
        Some(payload) => parsed_payload(from_payload(&payload)).map(Some),
    }
}

fn round_trip_emskin_to_proxy(msg: EmskinToProxy) {
    let buf = write_frame(&to_payload(&msg)).unwrap();
    let decoded = next_message(&buf).unwrap().unwrap();
    assert_eq!(decoded, msg);
}

#[test]
fn round_trip_focus_changed() {
    round_trip_emskin_to_proxy(EmskinToProxy::FocusChanged {
        ctx: 42,
        rect: [10, 20, 300, 400],
    });
}

#[test]
fn round_trip_client_born() {
    round_trip_emskin_to_proxy(EmskinToProxy::ClientBorn { pid: 12345, ctx: 7 });
}

#[test]
fn round_trip_bulk_rects() {
    round_trip_emskin_to_proxy(EmskinToProxy::BulkRects {
        updates: vec![(1, [0, 0, 100, 200]), (2, [300, 0, 100, 200])],
    });
}

#[test]
fn round_trip_unit_variants() {
    round_trip_emskin_to_proxy(EmskinToProxy::FocusCleared);
    round_trip_emskin_to_proxy(EmskinToProxy::Shutdown);
}

#[test]
fn round_trip_workspace_switched() {
    round_trip_emskin_to_proxy(EmskinToProxy::WorkspaceSwitched { workspace_id: 3 });
}

#[test]
fn round_trip_ctx_gone() {
    round_trip_emskin_to_proxy(EmskinToProxy::CtxGone { ctx: 99 });
}

#[test]
fn round_trip_rect_changed() {
    round_trip_emskin_to_proxy(EmskinToProxy::RectChanged {
        ctx: 5,
        rect: [100, 200, 800, 600],
    });
}

fn reply_to_payload(msg: &ProxyToEmskin) -> Vec<u8> {
    match msg {
        ProxyToEmskin::Ready => tagged("ready", vec![]),
        ProxyToEmskin::Error { context, message } => tagged(
            "error",
            vec![
                ("context", Value::String(context.clone())),
                ("message", Value::String(message.clone())),
            ],
        ),
        ProxyToEmskin::Stats {
            active_conns,
            msg_rate,
        } => tagged(
            "stats",
            vec![
                ("active_conns", number(*active_conns as i64)),
                ("msg_rate", number(*msg_rate as i64)),
            ],
        ),
    }
}

fn reply_from_payload(payload: &[u8]) -> ProxyToEmskin {
    let v: Value = serde_json::from_slice(payload).unwrap();
    match v["type"].as_str().unwrap() {
        "ready" => ProxyToEmskin::Ready,
        "error" => ProxyToEmskin::Error {
            context: v["context"].as_str().unwrap().to_string(),
            message: v["message"].as_str().unwrap().to_string(),
        },
        "stats" => ProxyToEmskin::Stats {
            active_conns: as_u64(&v["active_conns"]) as u32,
            msg_rate: as_u64(&v["msg_rate"]) as u32,
        },
        other => panic!("{}", other),
    }
}

#[test]
fn round_trip_proxy_to_emskin() {
    let msgs = [
        ProxyToEmskin::Ready,
        ProxyToEmskin::Error {
            context: "accept".into(),
            message: "permission denied".into(),
        },
        ProxyToEmskin::Stats {
            active_conns: 3,
            msg_rate: 42,
        },
    ];
    for msg in msgs {
        let buf = write_frame(&reply_to_payload(&msg)).unwrap();
        let payload = read_frame(&buf).unwrap().unwrap();
        assert_eq!(reply_from_payload(&payload), msg);
    }
}

#[test]
fn multiple_frames_same_buffer() {
    let msgs = [
        EmskinToProxy::ClientBorn { pid: 1, ctx: 1 },
        EmskinToProxy::FocusCleared,
        EmskinToProxy::Shutdown,
    ];
    let mut buf = Vec::new();
    for msg in &msgs {
        buf.extend_from_slice(&write_frame(&to_payload(msg)).unwrap());
    }
    let mut at = 0;
    for msg in &msgs {
        let payload = read_frame(&buf[at..]).unwrap().unwrap();
        assert_eq!(&from_payload(&payload).unwrap(), msg);
        at += 4 + payload.len();
    }
    assert_eq!(read_frame(&buf[at..]), Ok(None));
}

#[test]
fn clean_eof_at_frame_boundary_returns_none() {
    assert_eq!(next_message(&[]), Ok(None));
}

#[test]
fn clean_eof_after_full_frame_returns_none() {
    let buf = write_frame(&to_payload(&EmskinToProxy::Shutdown)).unwrap();
    let first = next_message(&buf).unwrap().unwrap();
    assert_eq!(first, EmskinToProxy::Shutdown);
    assert_eq!(next_message(&buf[buf.len()..]), Ok(None));
}

#[test]
fn truncated_length_header_is_unexpected_eof() {
    let buf: Vec<u8> = vec![0x10, 0x00];
    let err = next_message(&buf).unwrap_err();
    assert_eq!(err.kind(), CodecErrorKind::UnexpectedEof);
}

#[test]
fn truncated_payload_is_unexpected_eof() {
    let mut buf: Vec<u8> = Vec::new();
    buf.extend_from_slice(&100u32.to_le_bytes());
    buf.extend_from_slice(b"hello");
    let err = next_message(&buf).unwrap_err();
    assert_eq!(err.kind(), CodecErrorKind::UnexpectedEof);
}

#[test]
fn oversized_length_rejected() {
    let mut buf: Vec<u8> = Vec::new();
    buf.extend_from_slice(&((MAX_FRAME_SIZE as u32) + 1).to_le_bytes());
    let err = next_message(&buf).unwrap_err();
    assert_eq!(err.kind(), CodecErrorKind::InvalidData);
}

#[test]
fn malformed_json_payload_is_invalid_data() {
    let payload = b"not json at all";
    let mut buf: Vec<u8> = Vec::new();
    buf.extend_from_slice(&(payload.len() as u32).to_le_bytes());
    buf.extend_from_slice(payload);
    let err = next_message(&buf).unwrap_err();
    assert_eq!(err.kind(), CodecErrorKind::InvalidData);
}

#[test]
fn the_largest_payload_is_accepted() {
    assert_eq!(MAX_FRAME_SIZE, 1 << 20);
    let payload = vec![7u8; MAX_FRAME_SIZE];
    let buf = write_frame(&payload).unwrap();
    assert_eq!(&buf[..4], &[0, 0, 0x10, 0]);
    assert_eq!(read_frame(&buf), Ok(Some(payload)));
    assert_eq!(
        write_frame(&vec![7u8; MAX_FRAME_SIZE + 1]),
        Err(CodecError::PayloadTooLarge)
    );
    assert_eq!(write_frame(b"ab").unwrap(), vec![2, 0, 0, 0, b'a', b'b']);
}

#[test]
fn frames_are_read_piece_by_piece() {
    let mut stream = write_frame(b"hello").unwrap();
    stream.extend_from_slice(&write_frame(b"").unwrap());
    stream.extend_from_slice(&write_frame(b"you").unwrap());
    for step in 1..7 {
        let mut reader = FrameReader::new();
        let mut payloads: Vec<Vec<u8>> = Vec::new();
        let mut at = 0;
        while at < stream.len() {
            let n = reader.needed().min(step).min(stream.len() - at);
            if let Some(payload) = reader.push(&stream[at..at + n]).unwrap() {
                payloads.push(payload);
            }
            at += n;
        }
        assert_eq!(
            payloads,
            vec![b"hello".to_vec(), b"".to_vec(), b"you".to_vec()]
        );
        assert_eq!(reader.end(), Ok(()));
    }
}

#[test]
fn a_cut_off_or_oversized_stream_is_refused() {
    let mut reader = FrameReader::new();
    assert_eq!(reader.needed(), 4);
    assert_eq!(reader.push(&[5, 0]), Ok(None));
    assert_eq!(reader.needed(), 2);
    assert_eq!(reader.end(), Err(CodecError::UnexpectedEof));
    assert_eq!(reader.push(&[0, 0]), Ok(None));
    assert_eq!(reader.needed(), 5);
    let mut reader = FrameReader::new();
    assert_eq!(
        reader.push(&[1, 0, 0x10, 0]),
        Err(CodecError::FrameTooLarge)
    );
}

#[test]
fn codec_errors_describe_themselves() {
    assert_eq!(
        CodecError::PayloadTooLarge.message(),
        "payload exceeds MAX_FRAME_SIZE"
    );
    assert_eq!(
        CodecError::FrameTooLarge.message(),
        "frame exceeds MAX_FRAME_SIZE"
    );
    assert_eq!(
        CodecError::UnexpectedEof.message(),
        "unexpected end of file"
    );
    assert_eq!(CodecError::Malformed("x".to_string()).message(), "x");
    assert_eq!(
        CodecError::Malformed("x".to_string()).kind(),
        CodecErrorKind::InvalidData
    );
}
