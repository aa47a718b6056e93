//! The proxy's end of the control channel: it takes one compositor at a time,
//! greets it with `Ready`, and follows its messages.

use vstd::prelude::*;

use crate::broker::offset::FocusOffset;
use crate::protocol::{EmskinToProxy, ProxyToEmskin};

verus! {

/// What to do after a message.
#[derive(Debug, Clone, Copy, PartialEq, Eq, Structural)]
pub enum Action {
    Continue,
    Shutdown,
}

/// The offset after a message.
pub open spec fn offset_after(msg: EmskinToProxy, offset: Option<(i32, i32)>) -> Option<
    (i32, i32),
> {
    match msg {
        EmskinToProxy::FocusChanged { rect, .. } => Some((rect[0], rect[1])),
        EmskinToProxy::RectChanged { rect, .. } => Some((rect[0], rect[1])),
        EmskinToProxy::FocusCleared => None,
        _ => offset,
    }
}

/// What to do after a message.
pub open spec fn action_after(msg: EmskinToProxy) -> Action {
    if msg is Shutdown {
        Action::Shutdown
    } else {
        Action::Continue
    }
}

/// Follows one message. The offset is the same for all clients, so what is said
/// of single clients is not used.
pub fn apply(msg: &EmskinToProxy, offset: &mut FocusOffset) -> (action: Action)
    ensures
        action == action_after(*msg),
        final(offset).position() == offset_after(*msg, old(offset).position()),
{
    match msg {
        EmskinToProxy::FocusChanged { rect, .. } => {
            offset.set(Some((rect[0], rect[1])));
            Action::Continue
        },
        EmskinToProxy::RectChanged { rect, .. } => {
            offset.set(Some((rect[0], rect[1])));
            Action::Continue
        },
        EmskinToProxy::FocusCleared => {
            offset.set(None);
            Action::Continue
        },
        EmskinToProxy::Shutdown => Action::Shutdown,
        EmskinToProxy::ClientBorn { .. } => Action::Continue,
        EmskinToProxy::CtxGone { .. } => Action::Continue,
        EmskinToProxy::BulkRects { .. } => Action::Continue,
        EmskinToProxy::WorkspaceSwitched { .. } => Action::Continue,
    }
}

/// What came of the last step.
#[derive(Debug, Clone, PartialEq, Eq)]
pub enum Event {
    /// Waiting for a connection was interrupted.
    Interrupted,
    /// A connection could not be accepted.
    AcceptFailed,
    /// A connection was accepted.
    Accepted,
    /// What was to be sent is sent.
    Sent,
    /// A message was read, or the end of the connection.
    Read(Option<EmskinToProxy>),
    /// The connection broke.
    Broken,
}

/// What to do next.
#[derive(Debug, Clone, PartialEq, Eq)]
pub enum Step {
    /// Wait for the next connection.
    Accept,
    /// Send a message on the connection.
    Send(ProxyToEmskin),
    /// Read a message from the connection.
    Read,
    /// Tell the process to exit, and stop.
    ShutDown,
}

/// What to do next. All but a `Shutdown` leaves room for the next compositor.
pub open spec fn step_after(event: Event) -> Step {
    match event {
        Event::Interrupted => Step::Accept,
        Event::AcceptFailed => Step::Accept,
        Event::Accepted => Step::Send(ProxyToEmskin::Ready),
        Event::Sent => Step::Read,
        Event::Read(None) => Step::Accept,
        Event::Read(Some(msg)) => if msg is Shutdown {
            Step::ShutDown
        } else {
            Step::Read
        },
        Event::Broken => Step::Accept,
    }
}

/// The offset after an event: only messages change it.
pub open spec fn offset_after_event(event: Event, offset: Option<(i32, i32)>) -> Option<
    (i32, i32),
> {
    match event {
        Event::Read(Some(msg)) => offset_after(msg, offset),
        _ => offset,
    }
}

/// Follows what came of the last step, and gives the next one.
pub fn next_step(event: &Event, offset: &mut FocusOffset) -> (step: Step)
    ensures
        step == step_after(*event),
        final(offset).position() == offset_after_event(*event, old(offset).position()),
{
    match event {
        Event::Interrupted => Step::Accept,
        Event::AcceptFailed => Step::Accept,
        Event::Accepted => Step::Send(ProxyToEmskin::Ready),
        Event::Sent => Step::Read,
        Event::Read(None) => Step::Accept,
        Event::Read(Some(msg)) => match apply(msg, offset) {
            Action::Shutdown => Step::ShutDown,
            Action::Continue => Step::Read,
        },
        Event::Broken => Step::Accept,
    }
}

/// The offset after messages in a row.
pub open spec fn offset_after_all(
    messages: Seq<EmskinToProxy>,
    offset: Option<(i32, i32)>,
) -> Option<(i32, i32)>
    decreases messages.len(),
{
    if messages.len() == 0 {
        offset
    } else {
        offset_after(messages.last(), offset_after_all(messages.drop_last(), offset))
    }
}

/// Only the last message about the focus counts: repeating it, or losing one
/// before it, changes nothing.
pub proof fn last_focus_counts(
    messages: Seq<EmskinToProxy>,
    a: Option<(i32, i32)>,
    b: Option<(i32, i32)>,
)
    requires
        messages.len() > 0,
        messages.last() is FocusChanged || messages.last() is RectChanged
            || messages.last() is FocusCleared,
    ensures
        offset_after_all(messages, a) == offset_after_all(seq![messages.last()], b),
        offset_after_all(messages.push(messages.last()), a) == offset_after_all(messages, a),
{
    reveal_with_fuel(offset_after_all, 2);
    assert(messages.push(messages.last()).drop_last() =~= messages);
}

/// Whether `event` can come of `step`.
pub open spec fn comes_of(step: Step, event: Event) -> bool {
    match step {
        Step::Accept => event is Interrupted || event is AcceptFailed || event is Accepted,
        Step::Send(_) => event is Sent || event is Broken,
        Step::Read => event is Read || event is Broken,
        Step::ShutDown => false,
    }
}

/// Whether `events` is what comes to the server in turn, which first waits for
/// a connection.
pub open spec fn is_run(events: Seq<Event>) -> bool {
    &&& events.len() > 0 ==> comes_of(Step::Accept, events[0])
    &&& forall|i: int, j: int|
        0 <= i < events.len() && j == i + 1 && j < events.len() ==> comes_of(
            step_after(#[trigger] events[i]),
            #[trigger] events[j],
        )
}

/// The messages that were read, in order.
pub open spec fn messages_read(events: Seq<Event>) -> Seq<EmskinToProxy>
    decreases events.len(),
{
    if events.len() == 0 {
        seq![]
    } else {
        match events.last() {
            Event::Read(Some(msg)) => messages_read(events.drop_last()).push(msg),
            _ => messages_read(events.drop_last()),
        }
    }
}

/// The offset after events in a row.
pub open spec fn offset_after_run(
    events: Seq<Event>,
    offset: Option<(i32, i32)>,
) -> Option<(i32, i32)>
    decreases events.len(),
{
    if events.len() == 0 {
        offset
    } else {
        offset_after_event(events.last(), offset_after_run(events.drop_last(), offset))
    }
}

/// Each accepted connection is sent one message, `Ready`, before anything is
/// read from it, and after that the server only reads.
///
/// Something is sent when a connection has just been accepted, and at no other
/// time. Where the server is about to read after event `at`, a connection was
/// accepted and its greeting sent, and nothing but reading has come since.
pub proof fn greeted_once_and_first(events: Seq<Event>, at: int)
    requires
        is_run(events),
        0 <= at < events.len(),
    ensures
        events[at] is Accepted ==> step_after(events[at]) == Step::Send(ProxyToEmskin::Ready),
        step_after(events[at]) is Send ==> events[at] is Accepted,
        step_after(events[at]) is Read ==> exists|from: int|
            0 <= from < at && (#[trigger] events[from]) is Accepted && events[from + 1] is Sent && (
            forall|i: int|
                from + 1 < i <= at ==> (#[trigger] events[i]) is Read && step_after(
                    events[i],
                ) is Read),
    decreases at,
{
    if step_after(events[at]) is Read {
        if at == 0 {
            assert(comes_of(Step::Accept, events[0]));
        } else {
            assert(comes_of(step_after(events[at - 1]), events[at]));
            if events[at] is Sent {
                assert(step_after(events[at - 1]) is Send);
                assert(events[at - 1] is Accepted);
                assert(events[(at - 1) + 1] is Sent);
            } else {
                greeted_once_and_first(events, at - 1);
                let from = choose|from: int|
                    0 <= from < at - 1 && (#[trigger] events[from]) is Accepted
                        && events[from + 1] is Sent && (forall|i: int|
                        from + 1 < i <= at - 1 ==> (#[trigger] events[i]) is Read && step_after(
                            events[i],
                        ) is Read);
                assert(events[from] is Accepted && events[from + 1] is Sent);
                assert forall|i: int| from + 1 < i <= at implies (#[trigger] events[i]) is Read
                    && step_after(events[i]) is Read by {}
            }
        }
    }
}

/// The server stops on a `Shutdown`, and on nothing else: no event comes after
/// it, and the end or the break of a connection leads to the next one.
pub proof fn stops_on_shutdown_only(events: Seq<Event>, at: int)
    requires
        is_run(events),
        0 <= at < events.len(),
    ensures
        step_after(events[at]) is ShutDown <==> events[at] == Event::Read(
            Some(EmskinToProxy::Shutdown),
        ),
        step_after(events[at]) is ShutDown ==> at == events.len() - 1,
        events[at] == Event::Read(None) || events[at] is Broken ==> step_after(events[at])
            is Accept,
{
    if step_after(events[at]) is ShutDown && at + 1 < events.len() {
        assert(comes_of(step_after(events[at]), events[at + 1]));
    }
}

/// The messages of all connections count in the order in which they were read,
/// and nothing else does.
pub proof fn messages_count_in_order(events: Seq<Event>, offset: Option<(i32, i32)>)
    ensures
        offset_after_run(events, offset) == offset_after_all(messages_read(events), offset),
    decreases events.len(),
{
    if events.len() > 0 {
        messages_count_in_order(events.drop_last(), offset);
        if let Event::Read(Some(msg)) = events.last() {
            let read = messages_read(events.drop_last());
            assert(read.push(msg).drop_last() =~= read);
        }
    }
}

} // verus!
