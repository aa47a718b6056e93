use emskin_dbus::broker::offset::FocusOffset;
use emskin_dbus::ctl::client::{
    check_ready, retry_connect, settle_recv, ConnectFailure, ReadEvent, ReadyError, Received,
};
use emskin_dbus::ctl::server::{apply, next_step, Action, Event, Step};
use emskin_dbus::protocol::{EmskinToProxy, ProxyToEmskin};

#[test]
fn apply_focus_changed_sets_offset() {
    let mut offset = FocusOffset::new();
    let msg = EmskinToProxy::FocusChanged {
        ctx: 1,
        rect: [50, 60, 100, 200],
    };
    assert_eq!(apply(&msg, &mut offset), Action::Continue);
    assert_eq!(offset.get(), Some((50, 60)));
}

#[test]
fn apply_rect_changed_updates_offset() {
    let mut offset = FocusOffset::new();
    offset.set(Some((10, 20)));
    let msg = EmskinToProxy::RectChanged {
        ctx: 1,
        rect: [200, 300, 50, 50],
    };
    apply(&msg, &mut offset);
    assert_eq!(offset.get(), Some((200, 300)));
}

#[test]
fn apply_focus_cleared_clears_offset() {
    let mut offset = FocusOffset::new();
    offset.set(Some((10, 20)));
    apply(&EmskinToProxy::FocusCleared, &mut offset);
    assert_eq!(offset.get(), None);
}

#[test]
fn apply_shutdown_returns_shutdown_action() {
    let mut offset = FocusOffset::new();
    assert_eq!(
        apply(&EmskinToProxy::Shutdown, &mut offset),
        Action::Shutdown
    );
}

#[test]
fn apply_unused_messages_are_noop() {
    let mut offset = FocusOffset::new();
    offset.set(Some((10, 20)));
    apply(&EmskinToProxy::ClientBorn { pid: 42, ctx: 1 }, &mut offset);
    apply(&EmskinToProxy::CtxGone { ctx: 1 }, &mut offset);
    apply(
        &EmskinToProxy::BulkRects {
            updates: vec![(1, [1, 2, 3, 4])],
        },
        &mut offset,
    );
    apply(
        &EmskinToProxy::WorkspaceSwitched { workspace_id: 2 },
        &mut offset,
    );
    assert_eq!(offset.get(), Some((10, 20)));
}

#[test]
fn only_the_last_focus_counts() {
    let mut a = FocusOffset::default();
    let mut b = FocusOffset::default();
    let last = EmskinToProxy::FocusChanged {
        ctx: 2,
        rect: [7, 8, 0, 0],
    };
    apply(
        &EmskinToProxy::RectChanged {
            ctx: 1,
            rect: [1, 1, 1, 1],
        },
        &mut a,
    );
    apply(&last, &mut a);
    apply(&last, &mut a);
    apply(&last, &mut b);
    assert_eq!(a.get(), b.get());
}

#[test]
fn a_connection_goes_on_until_it_ends_or_shuts_down() {
    let mut offset = FocusOffset::new();
    let focus = EmskinToProxy::FocusChanged {
        ctx: 1,
        rect: [111, 222, 300, 400],
    };
    assert_eq!(
        next_step(&Event::Read(Some(focus)), &mut offset),
        Step::Read
    );
    assert_eq!(offset.get(), Some((111, 222)));
    assert_eq!(next_step(&Event::Read(None), &mut offset), Step::Accept);
    let shutdown = Event::Read(Some(EmskinToProxy::Shutdown));
    assert_eq!(next_step(&shutdown, &mut offset), Step::ShutDown);
    assert_eq!(offset.get(), Some((111, 222)));
}

#[test]
fn a_connection_is_greeted_once_before_it_is_read() {
    let mut offset = FocusOffset::new();
    let focus = EmskinToProxy::RectChanged {
        ctx: 1,
        rect: [3, 4, 5, 6],
    };
    let events = [
        Event::Accepted,
        Event::Sent,
        Event::Read(Some(focus)),
        Event::Read(Some(EmskinToProxy::CtxGone { ctx: 1 })),
        Event::Read(None),
        Event::Accepted,
        Event::Sent,
        Event::Read(Some(EmskinToProxy::Shutdown)),
    ];
    let mut steps = Vec::new();
    for event in &events {
        steps.push(next_step(event, &mut offset));
    }
    let ready = Step::Send(ProxyToEmskin::Ready);
    assert_eq!(
        steps,
        vec![
            ready.clone(),
            Step::Read,
            Step::Read,
            Step::Read,
            Step::Accept,
            ready,
            Step::Read,
            Step::ShutDown,
        ]
    );
    assert_eq!(offset.get(), Some((3, 4)));
}

#[test]
fn only_shutdown_stops_listening() {
    let mut offset = FocusOffset::new();
    for event in [
        Event::Interrupted,
        Event::AcceptFailed,
        Event::Broken,
        Event::Read(None),
    ] {
        assert_eq!(next_step(&event, &mut offset), Step::Accept);
    }
    assert_eq!(offset.get(), None);
}

#[test]
fn connecting_is_retried_while_there_is_time() {
    assert!(retry_connect(ConnectFailure::NotFound, true));
    assert!(retry_connect(ConnectFailure::ConnectionRefused, true));
    assert!(!retry_connect(ConnectFailure::NotFound, false));
    assert!(!retry_connect(ConnectFailure::Other, true));
}

#[test]
fn the_first_message_has_to_be_ready() {
    assert_eq!(check_ready(Some(ProxyToEmskin::Ready)), Ok(()));
    let stats = ProxyToEmskin::Stats {
        active_conns: 1,
        msg_rate: 2,
    };
    assert_eq!(
        check_ready(Some(stats.clone())),
        Err(ReadyError::Unexpected(stats))
    );
    assert_eq!(check_ready(None), Err(ReadyError::Closed));
}

#[test]
fn reads_that_do_not_wait_are_settled() {
    assert_eq!(settle_recv(ReadEvent::WouldBlock, true), Received::Nothing);
    assert_eq!(
        settle_recv(ReadEvent::WouldBlock, false),
        Received::RestoreFailed
    );
    assert_eq!(settle_recv(ReadEvent::Read(None), true), Received::Nothing);
    assert_eq!(
        settle_recv(ReadEvent::Read(Some(ProxyToEmskin::Ready)), true),
        Received::Message(ProxyToEmskin::Ready)
    );
    assert_eq!(
        settle_recv(ReadEvent::Read(Some(ProxyToEmskin::Ready)), false),
        Received::RestoreFailed
    );
    assert_eq!(settle_recv(ReadEvent::Failed, false), Received::ReadFailed);
}
