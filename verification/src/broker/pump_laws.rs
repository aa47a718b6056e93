//! What the bus gets of what a client sends.

use vstd::prelude::*;

use super::rewrite::rewritten;
use super::state::{
    broker_error_text, drained, fed, fresh_stream, BrokerErrorView, ObservedView, StreamView,
};
use crate::dbus::args::{body_bytes, ArgView};
use crate::dbus::endian::wrapped;
use crate::dbus::fields::raw_of;
use crate::dbus::frame::{
    as_written, error_text, frame_bytes, frame_size, frame_size_bounds, frame_size_of_written, ErrorView,
    FrameView, Kind,
};
use crate::dbus::marshal::fields_payload;
use crate::dbus::message::{header_of, parsed_header, HeaderView};
use crate::dbus::sasl::{begin_end, sasl_error_text, SaslError};
use crate::dbus_broker::{
    bus_address_round_trip, bus_path, fresh_broker, fresh_conn, left_after, pumped,
    step_after, BrokerView, ConnView, FlushStep, PumpOutcome, WriteEvent,
};
use crate::rules::cursor::moved_message;
use crate::rules::laws::{
    cursor_location_is_moved, cursor_rect_is_moved, other_messages_pass,
    sets_cursor_location, sets_cursor_rect,
};

verus! {

/// Whether a client whose handshake is over sends `f`, which is read from its
/// bytes, on a connection on which no other message has started.
pub open spec fn sends(conn: ConnView, f: FrameView) -> bool {
    &&& conn.stream.authed
    &&& conn.stream.pending.len() == 0
    &&& frame_bytes(f).len() <= 134_217_728
    &&& fields_payload(f.endian, raw_of(f.fields)).len() <= u32::MAX
    &&& parsed_header(frame_bytes(f)) == Ok::<HeaderView, ErrorView>(header_of(as_written(f)))
}

/// A message that is sent is passed on at once, translated by itself.
proof fn one_message(conn: ConnView, f: FrameView, offset: Option<(i32, i32)>)
    requires
        sends(conn, f),
    ensures
        ({
            let (after, r) = pumped(conn, frame_bytes(f), offset);
            &&& r == Ok::<PumpOutcome, BrokerErrorView>(PumpOutcome::Active)
            &&& after.stream.pending.len() == 0
            &&& after.client_out == conn.client_out
            &&& after.upstream_out == conn.upstream_out + match offset {
                Some(delta) => moved_message(frame_bytes(f), header_of(as_written(f)), delta),
                None => frame_bytes(f),
            }
        }),
{
    let bytes = frame_bytes(f);
    let n = bytes.len();
    assert(bytes.is_prefix_of(bytes)) by {
        assert(bytes =~= bytes.subrange(0, n as int));
    }
    frame_size_of_written(f, bytes);
    frame_size_bounds(bytes);
    assert(conn.stream.pending + bytes =~= bytes);
    assert(bytes.take(n as int) =~= bytes);
    assert(bytes.skip(n as int) =~= seq![]);
    let m = ObservedView { header: header_of(as_written(f)), offset: 0, length: n };
    reveal_with_fuel(drained, 2);
    let d = drained(bytes, 0);
    assert(d.messages =~= seq![m]);
    assert(d.taken == n);
    let forward = Seq::<u8>::empty() + bytes.take(n as int);
    assert(forward =~= bytes);
    if let Some(delta) = offset {
        reveal_with_fuel(rewritten, 2);
        assert(seq![m].drop_last() =~= seq![]);
        let moved = moved_message(bytes, m.header, delta);
        assert(bytes.subrange(0, n as int) =~= bytes);
        assert(bytes.take(0) + moved + bytes.skip(n as int) =~= moved);
    }
}

/// The bus gets a client's `SetCursorRect` with the position of the focused
/// window added, and all else of it as it was sent.
pub proof fn the_bus_gets_the_moved_rect(
    conn: ConnView,
    f: FrameView,
    x: i32,
    y: i32,
    w: i32,
    h: i32,
    delta: (i32, i32),
)
    requires
        sends(conn, f),
        f.kind == Kind::MethodCall,
        f.fields.interface == Some("org.fcitx.Fcitx.InputContext1"@),
        f.fields.member == Some("SetCursorRect"@),
        f.fields.signature == Some("iiii"@),
        f.body == body_bytes(
            f.endian,
            seq![ArgView::I32(x), ArgView::I32(y), ArgView::I32(w), ArgView::I32(h)],
        ),
    ensures
        pumped(conn, frame_bytes(f), Some(delta)).0.upstream_out == conn.upstream_out + frame_bytes(
            FrameView {
                body: body_bytes(
                    f.endian,
                    seq![
                        ArgView::I32(wrapped(x + delta.0)),
                        ArgView::I32(wrapped(y + delta.1)),
                        ArgView::I32(w),
                        ArgView::I32(h),
                    ],
                ),
                ..f
            },
        ),
{
    one_message(conn, f, Some(delta));
    cursor_rect_is_moved(f, x, y, w, h, delta);
}

/// The bus gets a client's `SetCursorLocation` with the position of the focused
/// window added.
pub proof fn the_bus_gets_the_moved_location(
    conn: ConnView,
    f: FrameView,
    x: i32,
    y: i32,
    delta: (i32, i32),
)
    requires
        sends(conn, f),
        f.kind == Kind::MethodCall,
        f.fields.interface == Some("org.fcitx.Fcitx.InputContext"@),
        f.fields.member == Some("SetCursorLocation"@),
        f.fields.signature == Some("ii"@),
        f.body == body_bytes(f.endian, seq![ArgView::I32(x), ArgView::I32(y)]),
    ensures
        pumped(conn, frame_bytes(f), Some(delta)).0.upstream_out == conn.upstream_out + frame_bytes(
            FrameView {
                body: body_bytes(
                    f.endian,
                    seq![ArgView::I32(wrapped(x + delta.0)), ArgView::I32(wrapped(y + delta.1))],
                ),
                ..f
            },
        ),
{
    one_message(conn, f, Some(delta));
    cursor_location_is_moved(f, x, y, delta);
}

/// The bus gets every other message as it was sent, at once; and so it gets all
/// of them where no window has the focus.
pub proof fn the_bus_gets_other_messages_as_sent(
    conn: ConnView,
    f: FrameView,
    offset: Option<(i32, i32)>,
)
    requires
        sends(conn, f),
        offset is None || !sets_cursor_rect(
            f.kind,
            (f.fields.interface, f.fields.member, f.fields.signature),
        ) && !sets_cursor_location(
            f.kind,
            (f.fields.interface, f.fields.member, f.fields.signature),
        ),
    ensures
        pumped(conn, frame_bytes(f), offset).1 == Ok::<PumpOutcome, BrokerErrorView>(PumpOutcome::Active),
        pumped(conn, frame_bytes(f), offset).0.upstream_out == conn.upstream_out + frame_bytes(f),
        pumped(conn, frame_bytes(f), offset).0.stream.pending.len() == 0,
        pumped(conn, frame_bytes(f), offset).0.client_out == conn.client_out,
{
    one_message(conn, f, offset);
    if let Some(delta) = offset {
        other_messages_pass(frame_bytes(f), header_of(as_written(f)), delta);
    }
}

/// A client's bytes change nothing that waits for the client, and what waits for
/// the bus stays in front.
pub proof fn pumping_only_appends(conn: ConnView, chunk: Seq<u8>, offset: Option<(i32, i32)>)
    ensures
        pumped(conn, chunk, offset).0.client_out == conn.client_out,
        conn.upstream_out.is_prefix_of(pumped(conn, chunk, offset).0.upstream_out),
        pumped(conn, chunk, offset).0.stream == fed(conn.stream, chunk).0,
        pumped(conn, chunk, offset).1 is Ok <==> fed(conn.stream, chunk).1 is Ok,
        pumped(conn, chunk, offset).1 matches Err(e) ==> fed(conn.stream, chunk).1->Err_0 == e
            && pumped(conn, chunk, offset).0.upstream_out == conn.upstream_out,
{
    let after = pumped(conn, chunk, offset).0.upstream_out;
    assert(conn.upstream_out =~= after.subrange(0, conn.upstream_out.len() as int));
}

// ---------------------------------------------------------------------------
// Streams
// ---------------------------------------------------------------------------
/// What is left of bytes after their complete messages is no complete message.
proof fn rest_is_incomplete(buf: Seq<u8>, at: nat)
    ensures
        ({
            let d = drained(buf, at);
            &&& d.taken <= buf.len()
            &&& d.error is None ==> (match frame_size(buf.skip(d.taken as int)) {
                Ok(None) => true,
                Ok(Some(n)) => buf.len() - d.taken < n,
                Err(_) => false,
            })
            &&& d.error matches Some(e) ==> (match frame_size(buf.skip(d.taken as int)) {
                Ok(None) => false,
                Ok(Some(n)) => n <= buf.len() - d.taken && parsed_header(
                    buf.subrange(d.taken as int, (d.taken + n) as int),
                ) == Err::<HeaderView, ErrorView>(e),
                Err(why) => why == e,
            })
        }),
    decreases buf.len(),
{
    frame_size_bounds(buf);
    assert(buf.skip(0) =~= buf);
    if let Ok(Some(n)) = frame_size(buf) {
        if buf.len() >= n {
            assert(buf.subrange(0, n as int) =~= buf.take(n as int));
            if parsed_header(buf.take(n as int)) is Ok {
                let rest = buf.skip(n as int);
                rest_is_incomplete(rest, at + n);
                let e = drained(rest, at + n);
                let d = drained(buf, at);
                assert(rest.skip(e.taken as int) =~= buf.skip(d.taken as int));
                if let Ok(Some(k)) = frame_size(buf.skip(d.taken as int)) {
                    if k <= buf.len() - d.taken {
                        assert(rest.subrange(e.taken as int, (e.taken + k) as int)
                            =~= buf.subrange(d.taken as int, (d.taken + k) as int));
                    }
                }
            }
        }
    }
}

/// No complete message is held back: once the handshake is over, what is held
/// back is shorter than the message that it starts.
pub proof fn no_complete_message_is_held_back(s: StreamView, chunk: Seq<u8>)
    requires
        s.wf(),
        fed(s, chunk).1 is Ok,
        fed(s, chunk).0.authed,
    ensures
        match frame_size(fed(s, chunk).0.pending) {
            Ok(None) => true,
            Ok(Some(n)) => fed(s, chunk).0.pending.len() < n,
            Err(_) => false,
        },
{
    if s.authed {
        rest_is_incomplete(s.pending + chunk, 0);
    } else if let Ok(Some(end)) = begin_end(s.auth + chunk) {
        let split = if end > s.auth.len() {
            end - s.auth.len()
        } else {
            0
        };
        rest_is_incomplete(s.pending + chunk.skip(split), chunk.take(split).len());
    }
}

/// Behind the handshake a stream is refused only for a message that is
/// malformed, and for what is wrong with it: one that announces no size, or one
/// that is there in full and is not read.
pub proof fn streams_are_refused_for_their_messages(s: StreamView, chunk: Seq<u8>)
    requires
        s.authed || begin_end(s.auth + chunk) matches Ok(Some(_)),
        fed(s, chunk).1 is Err,
    ensures
        ({
            let all = s.pending + chunk;
            let rest = fed(s, chunk).0.pending;
            &&& fed(s, chunk).1->Err_0 is Message
            &&& s.authed ==> rest.len() <= all.len() && rest == all.skip(all.len() - rest.len())
            &&& match frame_size(rest) {
                Err(e) => fed(s, chunk).1->Err_0->Message_0 == e,
                Ok(Some(n)) => n <= rest.len() && parsed_header(rest.take(n as int)) == Err::<
                    HeaderView,
                    ErrorView,
                >(fed(s, chunk).1->Err_0->Message_0),
                Ok(None) => false,
            }
        }),
{
    let split: int = if s.authed {
        0
    } else {
        let end = begin_end(s.auth + chunk)->Ok_0->Some_0;
        if end > s.auth.len() {
            end - s.auth.len()
        } else {
            0
        }
    };
    assert(chunk.skip(0) =~= chunk);
    let lead: Seq<u8> = if s.authed {
        seq![]
    } else {
        chunk.take(split)
    };
    let all = s.pending + chunk.skip(split);
    rest_is_incomplete(all, lead.len());
    let d = drained(all, lead.len());
    let rest = all.skip(d.taken as int);
    if let Ok(Some(n)) = frame_size(rest) {
        assert(rest.take(n as int) =~= all.subrange(d.taken as int, (d.taken + n) as int));
    }
}

/// During the handshake bytes are passed on as they come, and none is held back;
/// it ends where `BEGIN\r\n` does, and is refused where it does not start with
/// NUL or grows too long.
pub proof fn handshakes_pass(s: StreamView, chunk: Seq<u8>)
    requires
        !s.authed,
        s.pending.len() == 0,
    ensures
        match begin_end(s.auth + chunk) {
            Err(e) => fed(s, chunk).1 is Err && fed(s, chunk).1->Err_0 is Sasl && fed(
                s,
                chunk,
            ).1->Err_0->Sasl_0 == e,
            Ok(None) => {
                &&& fed(s, chunk).1 is Ok
                &&& fed(s, chunk).1->Ok_0.forward == chunk
                &&& fed(s, chunk).1->Ok_0.messages.len() == 0
                &&& !fed(s, chunk).0.authed
                &&& fed(s, chunk).0.auth == s.auth + chunk
                &&& fed(s, chunk).0.pending.len() == 0
            },
            Ok(Some(end)) => fed(s, chunk).0.authed && (fed(s, chunk).1 matches Ok(out) ==> (end
                >= s.auth.len() && end <= s.auth.len() + chunk.len() ==> chunk.take(
                end - s.auth.len(),
            ).is_prefix_of(out.forward))),
        },
{
    if let Ok(Some(end)) = begin_end(s.auth + chunk) {
        if let Ok(out) = fed(s, chunk).1 {
            if end >= s.auth.len() && end <= s.auth.len() + chunk.len() {
                let lead = chunk.take(end - s.auth.len());
                assert(lead =~= out.forward.subrange(0, lead.len() as int));
            }
        }
    }
}

/// A handshake that is over stays over.
pub proof fn handshakes_stay_over(s: StreamView, chunk: Seq<u8>)
    ensures
        s.authed ==> fed(s, chunk).0.authed,
        !s.authed && fed(s, chunk).0.authed ==> begin_end(s.auth + chunk) is Ok && begin_end(
            s.auth + chunk,
        )->Ok_0 is Some,
{
}

/// A new broker has no connection and moves nothing, and a new connection waits
/// for its handshake.
pub proof fn beginnings()
    ensures
        fresh_broker().offset is None,
        forall|id: u64| !#[trigger] fresh_broker().conns.contains_key(id),
        fresh_broker().next_id == 1,
        !fresh_conn().stream.authed,
        fresh_conn().stream.auth.len() == 0,
        fresh_conn().stream.pending.len() == 0,
        fresh_conn().client_out.len() == 0,
        fresh_conn().upstream_out.len() == 0,
        fresh_stream() == fresh_conn().stream,
{
}

// ---------------------------------------------------------------------------
// Writing
// ---------------------------------------------------------------------------
/// Writing goes on until nothing waits or the socket takes no more; bytes leave
/// only by being written, and a failure is reported.
pub proof fn writing_goes_on(waiting: Seq<u8>, event: WriteEvent)
    requires
        event matches WriteEvent::Wrote(n) ==> n <= waiting.len(),
    ensures
        ({
            let left = left_after(waiting, event);
            let step = step_after(waiting, event);
            &&& (event is Wrote ==> left == waiting.skip(event->Wrote_0 as int))
            &&& (!(event is Wrote) ==> left == waiting)
            &&& (step is Failed <==> event is Failed)
            &&& (step is Write ==> left.len() > 0)
            &&& (step matches FlushStep::Stop { pending } ==> pending == (left.len() > 0))
            &&& (left.len() > 0 && !(event is Failed) && !(event is WouldBlock) && event
                != WriteEvent::Wrote(0) ==> step is Write)
        }),
{
}

/// Another state of one connection is that of this connection, and changes
/// nothing else of the broker.
pub proof fn one_connection_changes(broker: BrokerView, id: u64, conn: ConnView)
    ensures
        broker.with_conn(id, conn).conns.contains_key(id),
        broker.with_conn(id, conn).conns[id] == conn,
        broker.with_conn(id, conn).offset == broker.offset,
        broker.with_conn(id, conn).next_id == broker.next_id,
        forall|other: u64|
            other != id ==> (#[trigger] broker.with_conn(id, conn).conns.contains_key(other)
                == broker.conns.contains_key(other)),
        forall|other: u64|
            other != id && broker.conns.contains_key(other) ==> #[trigger] broker.with_conn(
                id,
                conn,
            ).conns[other] == broker.conns[other],
{
}

// ---------------------------------------------------------------------------
// Addresses and texts
// ---------------------------------------------------------------------------
/// A bus address names a path where it starts with `unix:path=`, and nowhere
/// else; the path goes up to the first comma.
pub proof fn addresses_name_paths(addr: Seq<char>, path: Seq<char>, rest: Seq<char>)
    requires
        !path.contains(','),
    ensures
        bus_path(addr) is Some <==> "unix:path="@.len() <= addr.len() && addr.take(
            "unix:path="@.len() as int,
        ) == "unix:path="@,
        bus_path("unix:path="@ + path) == Some(path),
        bus_path("unix:path="@ + path + seq![','] + rest) == Some(path),
{
    bus_address_round_trip(path, rest);
}

/// What is said of an error.
pub proof fn broker_error_texts(e: ErrorView)
    ensures
        sasl_error_text(SaslError::MissingNulPrefix)
            == "handshake does not start with a NUL byte"@,
        sasl_error_text(SaslError::HandshakeTooLong) == "handshake exceeds maximum"@,
        broker_error_text(BrokerErrorView::Sasl(SaslError::MissingNulPrefix)) == "SASL error: "@
            + "handshake does not start with a NUL byte"@,
        broker_error_text(BrokerErrorView::Sasl(SaslError::HandshakeTooLong)) == "SASL error: "@
            + "handshake exceeds maximum"@,
        broker_error_text(BrokerErrorView::Message(e)) == "message error: "@ + error_text(e),
{
}

} // verus!
