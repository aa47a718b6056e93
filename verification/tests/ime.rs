use emskin_dbus::dbus_broker::{AcceptEvent, ConnId, DbusBroker, FcitxEvent};
use emskin_dbus::state::ime::{
    sync_ime_cursor_area, transition_focus, FocusStep, HostIme, ImeBridge, ImeStep,
};

fn conns() -> (ConnId, ConnId) {
    let mut broker = DbusBroker::new();
    let event = AcceptEvent::Connected {
        client_fd: 1,
        upstream_fd: 2,
    };
    let a = broker.accept_one(event).unwrap().unwrap().id;
    let b = broker.accept_one(event).unwrap().unwrap().id;
    (a, b)
}

fn focus(conn: ConnId, path: &str, focused: bool, rect: Option<[i32; 4]>) -> FcitxEvent {
    FcitxEvent::FocusChanged {
        conn,
        ic_path: path.to_string(),
        focused,
        rect,
    }
}

#[test]
fn focus_in_activates_the_context() {
    let (a, _) = conns();
    let mut ime = ImeBridge::new();
    assert!(ime.active_fcitx_ic().is_none());
    ime.on_fcitx_event(focus(a, "/ic/1", true, Some([1, 2, 0, -4])), Some([10, 20]));
    let active = ime.active_fcitx_ic().unwrap();
    assert_eq!(active.conn, a);
    assert_eq!(active.ic_path, "/ic/1");
    assert_eq!(ime.take_ime_enabled(), Some(true));
    assert_eq!(ime.take_ime_enabled(), None);
    assert_eq!(ime.take_pending_cursor_area(), Some(([11, 22], [1, 1])));
    assert_eq!(ime.take_pending_cursor_area(), None);
}

#[test]
fn an_area_needs_a_rectangle_and_an_origin() {
    let (a, _) = conns();
    let mut ime = ImeBridge::new();
    ime.on_fcitx_event(focus(a, "/ic/1", true, None), Some([10, 20]));
    ime.on_fcitx_event(focus(a, "/ic/1", true, Some([i32::MAX; 4])), None);
    assert_eq!(ime.take_pending_cursor_area(), None);
    ime.on_fcitx_event(
        FcitxEvent::CursorRect {
            conn: a,
            ic_path: "/ic/1".to_string(),
            rect: [5, 6, 7, 8],
        },
        None,
    );
    assert_eq!(ime.take_pending_cursor_area(), None);
    ime.on_fcitx_event(
        FcitxEvent::CursorRect {
            conn: a,
            ic_path: "/ic/1".to_string(),
            rect: [5, 6, 7, 8],
        },
        Some([-5, -6]),
    );
    assert_eq!(ime.take_pending_cursor_area(), Some(([0, 0], [7, 8])));
}

#[test]
fn stale_contexts_change_nothing() {
    let (a, b) = conns();
    let mut ime = ImeBridge::new();
    ime.on_fcitx_event(focus(a, "/ic/1", true, None), None);
    ime.on_fcitx_event(focus(b, "/ic/1", true, None), None);
    ime.take_ime_enabled();
    ime.on_fcitx_event(focus(a, "/ic/1", false, None), None);
    ime.on_fcitx_event(focus(b, "/ic/2", false, None), None);
    ime.on_fcitx_event(
        FcitxEvent::CursorRect {
            conn: a,
            ic_path: "/ic/1".to_string(),
            rect: [1, 1, 1, 1],
        },
        Some([0, 0]),
    );
    ime.on_fcitx_event(
        FcitxEvent::IcDestroyed {
            conn: a,
            ic_path: "/ic/1".to_string(),
        },
        None,
    );
    assert_eq!(ime.active_fcitx_ic().unwrap().conn, b);
    assert_eq!(ime.take_ime_enabled(), None);
    assert_eq!(ime.take_pending_cursor_area(), None);

    ime.on_fcitx_event(
        FcitxEvent::IcDestroyed {
            conn: b,
            ic_path: "/ic/1".to_string(),
        },
        None,
    );
    assert!(ime.active_fcitx_ic().is_none());
    assert_eq!(ime.take_ime_enabled(), Some(false));
}

#[test]
fn focus_out_turns_the_input_method_off() {
    let (a, _) = conns();
    let mut ime = ImeBridge::new();
    ime.on_fcitx_event(focus(a, "/ic/1", true, None), None);
    ime.on_fcitx_event(focus(a, "/ic/1", false, None), None);
    assert!(ime.active_fcitx_ic().is_none());
    assert_eq!(ime.take_ime_enabled(), Some(false));
}

#[test]
fn a_workspace_switch_forgets_everything() {
    let (a, _) = conns();
    let mut ime = ImeBridge::new();
    ime.on_focus_changed(Some(3));
    ime.on_fcitx_event(focus(a, "/ic/1", true, Some([0; 4])), Some([0, 0]));
    ime.reset_on_workspace_switch();
    assert!(ime.active_fcitx_ic().is_none());
    assert_eq!(ime.take_ime_enabled(), Some(false));
    assert_eq!(ime.take_pending_cursor_area(), None);
    assert_eq!(
        ime.on_focus_changed(Some(3)),
        vec![FocusStep::SetFocus(Some(3)), FocusStep::Enter]
    );
}

#[test]
fn a_change_of_focus_tells_both_clients() {
    assert_eq!(transition_focus(Some(1), Some(1)), vec![]);
    assert_eq!(transition_focus(None, None), vec![]);
    assert_eq!(
        transition_focus(Some(1), Some(2)),
        vec![
            FocusStep::SetFocus(Some(1)),
            FocusStep::Leave,
            FocusStep::SetFocus(Some(2)),
            FocusStep::Enter,
        ]
    );
    assert_eq!(
        transition_focus(Some(1), None),
        vec![
            FocusStep::SetFocus(Some(1)),
            FocusStep::Leave,
            FocusStep::SetFocus(None),
        ]
    );
    let mut ime = ImeBridge::new();
    assert_eq!(
        ime.on_focus_changed(Some(9)),
        vec![FocusStep::SetFocus(Some(9)), FocusStep::Enter]
    );
    ime.on_focus_probed(true);
    assert_eq!(ime.take_ime_enabled(), Some(true));
    assert_eq!(ime.on_focus_changed(Some(9)), vec![]);
}

#[test]
fn host_events_become_steps() {
    let ime = ImeBridge::new();
    let nothing = ImeStep::PreeditString {
        text: None,
        begin: 0,
        end: 0,
    };
    assert_eq!(
        ime.on_host_ime_event(HostIme::Enabled),
        vec![ImeStep::Enter]
    );
    assert_eq!(
        ime.on_host_ime_event(HostIme::Preedit("ni".to_string(), Some((1, 2)))),
        vec![
            ImeStep::PreeditString {
                text: Some("ni".to_string()),
                begin: 1,
                end: 2,
            },
            ImeStep::Done,
        ]
    );
    assert_eq!(
        ime.on_host_ime_event(HostIme::Preedit("".to_string(), None)),
        vec![
            ImeStep::PreeditString {
                text: Some("".to_string()),
                begin: -1,
                end: -1,
            },
            ImeStep::Done,
        ]
    );
    assert_eq!(
        ime.on_host_ime_event(HostIme::Preedit(
            "x".to_string(),
            Some((0xffff_ffff, 0x8000_0000))
        )),
        vec![
            ImeStep::PreeditString {
                text: Some("x".to_string()),
                begin: -1,
                end: i32::MIN,
            },
            ImeStep::Done,
        ]
    );
    assert_eq!(
        ime.on_host_ime_event(HostIme::Commit("你".to_string())),
        vec![
            nothing.clone(),
            ImeStep::CommitString {
                text: Some("你".to_string()),
            },
            ImeStep::Done,
        ]
    );
    assert_eq!(
        ime.on_host_ime_event(HostIme::Disabled),
        vec![nothing, ImeStep::Done, ImeStep::Leave]
    );
}

#[test]
fn the_popup_follows_the_cursor() {
    assert_eq!(sync_ime_cursor_area(None, Some([1, 1])), None);
    assert_eq!(
        sync_ime_cursor_area(Some([1, 2, 0, 4]), Some([10, 20])),
        Some(([11, 22], [0, 4]))
    );
    assert_eq!(
        sync_ime_cursor_area(Some([1, 2, 3, 4]), None),
        Some(([1, 2], [3, 4]))
    );
}
