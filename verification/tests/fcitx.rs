use emskin_dbus::dbus::frame::{Endian, Frame, Kind};
use emskin_dbus::dbus::args::Arg;
use emskin_dbus::fcitx::classify::{classify, classify_with, find_call, Call, FcitxMethod};
use emskin_dbus::fcitx::ic::IcRegistry;
use emskin_dbus::fcitx::reply::{build_reply, next_nonzero};
use emskin_dbus::fcitx::{INPUT_CONTEXT_IFACE, INPUT_CONTEXT_IFACE_FCITX4, INPUT_METHOD_IFACE};

fn method_call(iface: &str, member: &str, path: &str, body: &[Arg]) -> Vec<u8> {
    let mut args = Frame::signal(path, iface, member)
        .serial(1)
        .destination("org.fcitx.Fcitx5")
        .body_args();
    for arg in body {
        args = args.arg(arg);
    }
    let mut frame = args.done().build();
    frame.kind = Kind::MethodCall;
    frame.encode()
}

fn method_call_empty(iface: &str, member: &str, path: &str) -> Vec<u8> {
    method_call(iface, member, path, &[])
}

#[test]
fn classifies_focus_in() {
    let bytes = method_call_empty(INPUT_CONTEXT_IFACE, "FocusIn", "/ic/7");
    let frame = Frame::parse(&bytes).unwrap();
    assert_eq!(
        classify(&frame),
        Some(FcitxMethod::FocusIn {
            ic_path: "/ic/7".into()
        })
    );
}

#[test]
fn classifies_focus_out() {
    let bytes = method_call_empty(INPUT_CONTEXT_IFACE, "FocusOut", "/ic/1");
    let frame = Frame::parse(&bytes).unwrap();
    assert_eq!(
        classify(&frame),
        Some(FcitxMethod::FocusOut {
            ic_path: "/ic/1".into()
        })
    );
}

#[test]
fn classifies_reset() {
    let bytes = method_call_empty(INPUT_CONTEXT_IFACE, "Reset", "/ic/1");
    let frame = Frame::parse(&bytes).unwrap();
    assert_eq!(
        classify(&frame),
        Some(FcitxMethod::Reset {
            ic_path: "/ic/1".into()
        })
    );
}

#[test]
fn classifies_destroy_ic() {
    let bytes = method_call_empty(INPUT_CONTEXT_IFACE, "DestroyIC", "/ic/1");
    let frame = Frame::parse(&bytes).unwrap();
    assert_eq!(
        classify(&frame),
        Some(FcitxMethod::DestroyIC {
            ic_path: "/ic/1".into()
        })
    );
}

#[test]
fn classifies_set_cursor_rect() {
    let bytes = method_call(
        INPUT_CONTEXT_IFACE,
        "SetCursorRect",
        "/ic/7",
        &[Arg::I32(100), Arg::I32(200), Arg::I32(10), Arg::I32(20)],
    );
    let frame = Frame::parse(&bytes).unwrap();
    assert_eq!(
        classify(&frame),
        Some(FcitxMethod::SetCursorRect {
            ic_path: "/ic/7".into(),
            x: 100,
            y: 200,
            w: 10,
            h: 20,
        })
    );
}

#[test]
fn classifies_set_cursor_rect_v2() {
    let bytes = method_call(
        INPUT_CONTEXT_IFACE,
        "SetCursorRectV2",
        "/ic/7",
        &[
            Arg::I32(10),
            Arg::I32(20),
            Arg::I32(30),
            Arg::I32(40),
            Arg::Double(1.25f64.to_bits()),
        ],
    );
    let frame = Frame::parse(&bytes).unwrap();
    let Some(FcitxMethod::SetCursorRectV2 {
        ic_path,
        x,
        y,
        w,
        h,
        scale,
    }) = classify(&frame)
    else {
        panic!("not V2");
    };
    assert_eq!(ic_path, "/ic/7");
    assert_eq!((x, y, w, h), (10, 20, 30, 40));
    assert_eq!(f64::from_bits(scale), 1.25);
}

#[test]
fn classifies_fcitx4_set_cursor_location() {
    let bytes = method_call(
        INPUT_CONTEXT_IFACE_FCITX4,
        "SetCursorLocation",
        "/ic/7",
        &[Arg::I32(50), Arg::I32(60)],
    );
    let frame = Frame::parse(&bytes).unwrap();
    assert_eq!(
        classify(&frame),
        Some(FcitxMethod::SetCursorLocation {
            ic_path: "/ic/7".into(),
            x: 50,
            y: 60,
        })
    );
}

#[test]
fn process_key_event_is_not_classified() {
    let bytes = method_call(
        INPUT_CONTEXT_IFACE,
        "ProcessKeyEvent",
        "/ic/7",
        &[
            Arg::U32(0x61),
            Arg::U32(38),
            Arg::U32(0),
            Arg::Bool(false),
            Arg::U32(1234),
        ],
    );
    let frame = Frame::parse(&bytes).unwrap();
    assert_eq!(classify(&frame), None);
}

#[test]
fn classifies_set_capability() {
    let bytes = method_call(
        INPUT_CONTEXT_IFACE,
        "SetCapability",
        "/ic/7",
        &[Arg::U64(0xDEADBEEF)],
    );
    let frame = Frame::parse(&bytes).unwrap();
    assert_eq!(
        classify(&frame),
        Some(FcitxMethod::SetCapability {
            ic_path: "/ic/7".into(),
            capability: 0xDEADBEEF,
        })
    );
}

#[test]
fn classifies_create_input_context_empty() {
    let bytes = method_call(
        INPUT_METHOD_IFACE,
        "CreateInputContext",
        "/im",
        &[Arg::StrPairs(vec![])],
    );
    let frame = Frame::parse(&bytes).unwrap();
    assert_eq!(
        classify(&frame),
        Some(FcitxMethod::CreateInputContext { hints: vec![] })
    );
}

#[test]
fn classifies_create_input_context_with_one_hint() {
    let bytes = method_call(
        INPUT_METHOD_IFACE,
        "CreateInputContext",
        "/im",
        &[Arg::StrPairs(vec![("program".into(), "wechat".into())])],
    );
    let frame = Frame::parse(&bytes).unwrap();
    assert_eq!(
        classify(&frame),
        Some(FcitxMethod::CreateInputContext {
            hints: vec![("program".into(), "wechat".into())],
        })
    );
}

#[test]
fn wrong_signature_is_not_classified() {
    let bytes = method_call(
        INPUT_CONTEXT_IFACE,
        "SetCursorRect",
        "/ic/7",
        &[Arg::I32(10), Arg::I32(20)],
    );
    let parsed = Frame::parse(&bytes).unwrap();
    assert_eq!(classify(&parsed), None);
}

#[test]
fn unrelated_interface_is_not_classified() {
    let bytes = method_call_empty("org.freedesktop.DBus", "Hello", "/org/freedesktop/DBus");
    let frame = Frame::parse(&bytes).unwrap();
    assert_eq!(classify(&frame), None);
}

#[test]
fn unknown_member_on_known_iface_is_not_classified() {
    let bytes = method_call(
        INPUT_CONTEXT_IFACE,
        "MysterySettings",
        "/ic/7",
        &[Arg::I32(0), Arg::I32(0), Arg::I32(0)],
    );
    let frame = Frame::parse(&bytes).unwrap();
    assert_eq!(classify(&frame), None);
}

#[test]
fn classifies_surrounding_text() {
    let bytes = method_call(
        INPUT_CONTEXT_IFACE,
        "SetSurroundingText",
        "/ic/2",
        &[Arg::Str("né".into()), Arg::U32(1), Arg::U32(2)],
    );
    assert_eq!(
        classify(&Frame::parse(&bytes).unwrap()),
        Some(FcitxMethod::SetSurroundingText {
            ic_path: "/ic/2".into(),
            text: "né".into(),
            cursor: 1,
            anchor: 2,
        })
    );
    let bytes = method_call(
        INPUT_CONTEXT_IFACE,
        "SetSurroundingTextPosition",
        "/ic/2",
        &[Arg::U32(3), Arg::U32(4)],
    );
    assert_eq!(
        classify(&Frame::parse(&bytes).unwrap()),
        Some(FcitxMethod::SetSurroundingTextPosition {
            ic_path: "/ic/2".into(),
            cursor: 3,
            anchor: 4,
        })
    );
}

#[test]
fn a_call_without_a_path_or_a_fitting_body_is_not_classified() {
    let bytes = method_call_empty(INPUT_CONTEXT_IFACE, "FocusIn", "no path");
    assert_eq!(classify(&Frame::parse(&bytes).unwrap()), None);

    let bytes = method_call(
        INPUT_CONTEXT_IFACE,
        "SetCapability",
        "/ic/1",
        &[Arg::U64(1)],
    );
    let mut frame = Frame::parse(&bytes).unwrap().into_owned();
    assert_eq!(find_call(&frame.fields), Some(Call::SetCapability));
    frame.body = std::borrow::Cow::Owned(vec![1, 2, 3]);
    assert_eq!(classify(&frame), None);
    assert_eq!(
        classify_with(&frame, Some(vec![Arg::U64(5)])),
        Some(FcitxMethod::SetCapability {
            ic_path: "/ic/1".into(),
            capability: 5,
        })
    );
    assert_eq!(classify_with(&frame, Some(vec![Arg::U32(5)])), None);
    assert_eq!(classify_with(&frame, None), None);
}

#[test]
fn calls_in_big_endian_order_are_classified() {
    let bytes = method_call_empty(INPUT_CONTEXT_IFACE, "SetCapability", "/ic/3");
    let mut frame = Frame::parse(&bytes).unwrap().into_owned();
    frame.endian = Endian::Big;
    frame.fields.signature = Some("t".into());
    frame.body = std::borrow::Cow::Owned(vec![0, 0, 0, 0, 0, 0, 1, 2]);
    let bytes = frame.encode();
    assert_eq!(
        classify(&Frame::parse(&bytes).unwrap()),
        Some(FcitxMethod::SetCapability {
            ic_path: "/ic/3".into(),
            capability: 258,
        })
    );
}

#[test]
fn new_registry_is_empty() {
    let r = IcRegistry::new();
    assert!(r.is_empty());
    assert_eq!(r.len(), 0);
}

#[test]
fn allocate_returns_portal_style_path() {
    let mut r = IcRegistry::new();
    let (path, _) = r.allocate();
    assert_eq!(path, "/org/freedesktop/portal/inputcontext/1");
}

#[test]
fn allocate_increments_id() {
    let mut r = IcRegistry::new();
    let (p1, s1) = r.allocate();
    let (p2, s2) = r.allocate();
    assert_ne!(p1, p2);
    assert_eq!(s1.id, 1);
    assert_eq!(s2.id, 2);
}

#[test]
fn uuid_encodes_id_in_low_bytes() {
    let mut r = IcRegistry::new();
    let (_, s) = r.allocate();
    assert_eq!(s.uuid[..8], 1u64.to_le_bytes());
}

#[test]
fn get_returns_registered_ic() {
    let mut r = IcRegistry::new();
    let (path, s) = r.allocate();
    assert_eq!(r.get(&path), Some(&s));
}

#[test]
fn get_mut_allows_field_updates() {
    let mut r = IcRegistry::new();
    let (path, _) = r.allocate();
    let st = r.get_mut(&path).unwrap();
    st.focused = true;
    st.capability = 0xF;
    st.cursor_rect = Some([1, 2, 3, 4]);

    let st_again = r.get(&path).unwrap();
    assert!(st_again.focused);
    assert_eq!(st_again.capability, 0xF);
    assert_eq!(st_again.cursor_rect, Some([1, 2, 3, 4]));
}

#[test]
fn destroy_removes_and_returns_state() {
    let mut r = IcRegistry::new();
    let (path, s) = r.allocate();
    assert_eq!(r.destroy(&path), Some(s));
    assert!(r.get(&path).is_none());
    assert!(r.is_empty());
}

#[test]
fn destroy_of_unknown_path_is_none() {
    let mut r = IcRegistry::new();
    assert_eq!(r.destroy("/does-not-exist"), None);
}

#[test]
fn ids_after_destroy_keep_counting_forward() {
    let mut r = IcRegistry::new();
    let (p1, _) = r.allocate();
    r.destroy(&p1);
    let (p2, _) = r.allocate();
    assert_eq!(p2, "/org/freedesktop/portal/inputcontext/2");
}

#[test]
fn iter_visits_every_ic() {
    let mut r = IcRegistry::new();
    let _ = r.allocate();
    let _ = r.allocate();
    let _ = r.allocate();
    assert_eq!(r.iter().into_iter().count(), 3);
}

#[test]
fn a_default_registry_starts_at_one() {
    let mut r = IcRegistry::default();
    let (_, s) = r.allocate();
    assert_eq!(s.id, 1);
    assert_eq!(s.uuid, [1, 0, 0, 0, 0, 0, 0, 0, 0, 0, 0, 0, 0, 0, 0, 0]);
    assert_eq!(s.capability, 0);
    assert!(!s.focused);
    assert_eq!(s.cursor_rect, None);
}

#[test]
fn contexts_do_not_disturb_each_other() {
    let mut r = IcRegistry::new();
    let (p1, s1) = r.allocate();
    let (p2, _) = r.allocate();
    let (p3, s3) = r.allocate();
    r.get_mut(&p2).unwrap().capability = 9;
    assert_eq!(r.get(&p1), Some(&s1));
    assert_eq!(r.get(&p3), Some(&s3));
    assert!(r.get_mut("/nothing").is_none());
    r.destroy(&p2);
    assert_eq!(r.len(), 2);
    let mut paths: Vec<&str> = r.iter().into_iter().map(|(p, _)| p).collect();
    paths.sort();
    assert_eq!(paths, vec![p1.as_str(), p3.as_str()]);
}

fn create_input_context_request(serial: u32) -> Vec<u8> {
    let mut frame = Frame::signal(
        "/org/freedesktop/portal/inputmethod",
        "org.fcitx.Fcitx.InputMethod1",
        "CreateInputContext",
    )
    .serial(serial)
    .destination("org.fcitx.Fcitx5")
    .sender(":1.42")
    .body(&Arg::StrPairs(vec![]))
    .build();
    frame.kind = Kind::MethodCall;
    frame.encode()
}

fn empty_request(member: &str, path: &str, serial: u32) -> Vec<u8> {
    let mut frame = Frame::signal(path, "org.fcitx.Fcitx.InputContext1", member)
        .serial(serial)
        .destination("org.fcitx.Fcitx5")
        .sender(":1.42")
        .build();
    frame.kind = Kind::MethodCall;
    frame.encode()
}

#[test]
fn create_input_context_returns_oay_with_swapped_endpoints() {
    let bytes = create_input_context_request(42);
    let request = Frame::parse(&bytes).unwrap();
    let mut reg = IcRegistry::new();
    let mut serial = 0;
    let reply_bytes = build_reply(
        &request,
        &FcitxMethod::CreateInputContext { hints: vec![] },
        &mut reg,
        &mut serial,
    );
    let reply = Frame::parse(&reply_bytes).unwrap();
    assert_eq!(reply.kind, Kind::MethodReturn);
    assert_eq!(reply.fields.reply_serial, Some(42));
    assert_eq!(reply.fields.destination.as_deref(), Some(":1.42"));
    assert_eq!(reply.fields.sender.as_deref(), Some("org.fcitx.Fcitx5"));
    assert_eq!(reply.fields.signature.as_deref(), Some("oay"));
    assert_eq!(reg.len(), 1);
}

#[test]
fn focus_in_updates_registry_and_returns_empty() {
    let mut reg = IcRegistry::new();
    let (path, _) = reg.allocate();
    let bytes = empty_request("FocusIn", &path, 1);
    let request = Frame::parse(&bytes).unwrap();
    let mut serial = 0;
    let reply_bytes = build_reply(
        &request,
        &FcitxMethod::FocusIn {
            ic_path: path.clone(),
        },
        &mut reg,
        &mut serial,
    );
    let reply = Frame::parse(&reply_bytes).unwrap();
    assert_eq!(reply.kind, Kind::MethodReturn);
    assert_eq!(reply.body.len(), 0);
    assert!(reg.get(&path).unwrap().focused);
}

#[test]
fn focus_out_clears_focused_flag() {
    let mut reg = IcRegistry::new();
    let (path, _) = reg.allocate();
    reg.get_mut(&path).unwrap().focused = true;
    let bytes = empty_request("FocusOut", &path, 1);
    let request = Frame::parse(&bytes).unwrap();
    let mut serial = 0;
    build_reply(
        &request,
        &FcitxMethod::FocusOut {
            ic_path: path.clone(),
        },
        &mut reg,
        &mut serial,
    );
    assert!(!reg.get(&path).unwrap().focused);
}

#[test]
fn destroy_ic_removes_from_registry() {
    let mut reg = IcRegistry::new();
    let (path, _) = reg.allocate();
    let bytes = empty_request("DestroyIC", &path, 1);
    let request = Frame::parse(&bytes).unwrap();
    let mut serial = 0;
    build_reply(
        &request,
        &FcitxMethod::DestroyIC { ic_path: path },
        &mut reg,
        &mut serial,
    );
    assert_eq!(reg.len(), 0);
}

#[test]
fn set_cursor_rect_v2_stores_rect() {
    let mut reg = IcRegistry::new();
    let (path, _) = reg.allocate();
    let bytes = empty_request("SetCursorRectV2", &path, 1);
    let request = Frame::parse(&bytes).unwrap();
    let mut serial = 0;
    build_reply(
        &request,
        &FcitxMethod::SetCursorRectV2 {
            ic_path: path.clone(),
            x: 100,
            y: 200,
            w: 10,
            h: 20,
            scale: 1.0f64.to_bits(),
        },
        &mut reg,
        &mut serial,
    );
    assert_eq!(
        reg.get(&path).unwrap().cursor_rect,
        Some([100, 200, 10, 20])
    );
}

#[test]
fn serial_counter_skips_zero_on_wrap() {
    let mut c: u32 = u32::MAX;
    assert_eq!(next_nonzero(&mut c), 1);
    assert_eq!(c, 1);
}

#[test]
fn serial_counter_increments_normally() {
    let mut c: u32 = 41;
    assert_eq!(next_nonzero(&mut c), 42);
    assert_eq!(next_nonzero(&mut c), 43);
}

#[test]
fn the_reply_to_a_creation_has_the_path_and_the_uuid() {
    let bytes = create_input_context_request(7);
    let request = Frame::parse(&bytes).unwrap();
    let mut reg = IcRegistry::new();
    reg.allocate();
    let mut serial = 41;
    let reply_bytes = build_reply(
        &request,
        &FcitxMethod::CreateInputContext { hints: vec![] },
        &mut reg,
        &mut serial,
    );
    assert_eq!(serial, 42);
    let reply = Frame::parse(&reply_bytes).unwrap();
    assert_eq!(reply.serial, 42);
    let mut expected: Vec<u8> = Vec::new();
    expected.extend_from_slice(&38u32.to_le_bytes());
    expected.extend_from_slice(b"/org/freedesktop/portal/inputcontext/2\0\0");
    expected.extend_from_slice(&16u32.to_le_bytes());
    expected.extend_from_slice(&2u64.to_le_bytes());
    expected.extend_from_slice(&[0; 8]);
    assert_eq!(reply.body.as_ref(), expected.as_slice());
}

#[test]
fn calls_bring_the_registry_up_to_date() {
    let mut reg = IcRegistry::new();
    let (path, _) = reg.allocate();
    let bytes = empty_request("Any", &path, 1);
    let request = Frame::parse(&bytes).unwrap();
    let mut serial = 0;
    let calls = [
        FcitxMethod::SetCapability {
            ic_path: path.clone(),
            capability: 3,
        },
        FcitxMethod::SetCursorLocation {
            ic_path: path.clone(),
            x: 5,
            y: 6,
        },
        FcitxMethod::Reset {
            ic_path: path.clone(),
        },
        FcitxMethod::SetSurroundingText {
            ic_path: path.clone(),
            text: "t".into(),
            cursor: 0,
            anchor: 0,
        },
        FcitxMethod::SetSurroundingTextPosition {
            ic_path: path.clone(),
            cursor: 0,
            anchor: 0,
        },
        FcitxMethod::FocusIn {
            ic_path: "/unknown".into(),
        },
    ];
    for call in &calls {
        build_reply(&request, call, &mut reg, &mut serial);
    }
    let state = reg.get(&path).unwrap();
    assert_eq!(state.capability, 3);
    assert_eq!(state.cursor_rect, Some([5, 6, 0, 0]));
    assert!(!state.focused);
    build_reply(
        &request,
        &FcitxMethod::SetCursorRect {
            ic_path: path.clone(),
            x: 1,
            y: 2,
            w: 3,
            h: 4,
        },
        &mut reg,
        &mut serial,
    );
    assert_eq!(reg.get(&path).unwrap().cursor_rect, Some([1, 2, 3, 4]));
    assert_eq!(serial, 7);
    assert_eq!(reg.len(), 1);
}

#[test]
fn a_context_is_focused_as_its_latest_call_says() {
    let mut reg = IcRegistry::new();
    let (path, _) = reg.allocate();
    let (other, _) = reg.allocate();
    let bytes = empty_request("FocusIn", &path, 1);
    let request = Frame::parse(&bytes).unwrap();
    let mut serial = 0;
    let focus_in = |ic_path: &String| FcitxMethod::FocusIn {
        ic_path: ic_path.clone(),
    };
    let focus_out = |ic_path: &String| FcitxMethod::FocusOut {
        ic_path: ic_path.clone(),
    };
    let reset = FcitxMethod::Reset {
        ic_path: path.clone(),
    };
    let destroy_other = FcitxMethod::DestroyIC {
        ic_path: other.clone(),
    };
    let create = FcitxMethod::CreateInputContext { hints: vec![] };
    let calls = [
        (focus_in(&other), false),
        (focus_in(&path), true),
        (focus_out(&other), true),
        (reset, true),
        (focus_out(&path), false),
        (create, false),
        (focus_in(&path), true),
        (destroy_other, true),
    ];
    for (call, focused) in &calls {
        build_reply(&request, call, &mut reg, &mut serial);
        assert_eq!(reg.get(&path).unwrap().focused, *focused);
    }
}

#[test]
fn a_call_is_recognised_exactly_where_its_body_is_read() {
    let pair = ("program".to_string(), "emacs".to_string());
    let mut frame = Frame::signal("/", INPUT_METHOD_IFACE, "CreateInputContext")
        .serial(1)
        .body(&Arg::StrPairs(vec![pair.clone()]))
        .build();
    frame.fields.path = None;
    assert_eq!(
        classify(&frame),
        Some(FcitxMethod::CreateInputContext { hints: vec![pair] })
    );
    let whole = frame.body.to_vec();
    frame.body = whole[..whole.len() - 2].to_vec().into();
    assert_eq!(frame.decode_body(), None);
    assert_eq!(classify(&frame), None);

    let mut frame = Frame::signal("/ic", INPUT_CONTEXT_IFACE, "SetCapability")
        .serial(1)
        .body(&Arg::U64(3))
        .build();
    assert!(classify(&frame).is_some());
    frame.fields.path = None;
    assert_eq!(classify(&frame), None);
}
