//! What clients and the host see of the input-method bridge.

use vstd::prelude::*;

use super::ime::{
    after_event, area_fits, fresh_ime, sent_offset, steps_for, transition, FocusStep, HostIme, ImeStepView,
    ImeView, SurfaceId,
};
use crate::dbus_broker::{ConnId, FcitxEvent};

verus! {

// ---------------------------------------------------------------------------
// The client's side
// ---------------------------------------------------------------------------
/// A text-input client as it follows steps: what has been announced since the
/// last `Done`, and what it shows and has received by then.
#[verifier::ext_equal]
pub struct TextClient {
    /// Whether it has been told that it has the text focus.
    pub entered: bool,
    /// Text that is announced as final.
    pub next_text: Seq<char>,
    /// Composed text that is announced, with its cursor.
    pub next_shown: Option<(Seq<char>, i32, i32)>,
    /// All the text that it has received.
    pub received: Seq<char>,
    /// The composed text that it shows, with its cursor.
    pub shown: Option<(Seq<char>, i32, i32)>,
}

/// The client after one step. Changes are applied together at `Done`: the
/// composed text is replaced, and final text comes in.
pub open spec fn client_step(c: TextClient, step: ImeStepView) -> TextClient {
    match step {
        ImeStepView::Enter => TextClient { entered: true, ..c },
        ImeStepView::Leave => TextClient { entered: false, ..c },
        ImeStepView::PreeditString { text, begin, end } => TextClient {
            next_shown: match text {
                Some(t) => Some((t, begin, end)),
                None => None,
            },
            ..c
        },
        ImeStepView::CommitString { text } => TextClient {
            next_text: match text {
                Some(t) => t,
                None => seq![],
            },
            ..c
        },
        ImeStepView::Done => TextClient {
            received: c.received + c.next_text,
            shown: c.next_shown,
            next_text: seq![],
            next_shown: None,
            ..c
        },
    }
}

/// The client after steps in a row.
pub open spec fn client_after(c: TextClient, steps: Seq<ImeStepView>) -> TextClient
    decreases steps.len(),
{
    if steps.len() == 0 {
        c
    } else {
        client_step(client_after(c, steps.drop_last()), steps.last())
    }
}

/// What a client that has nothing announced sees of an event of the host's input
/// method. It receives the whole of a final text, and nothing at any other
/// event. It shows the text that is being composed, with the cursor in it, and
/// no other.
pub proof fn what_clients_see(c: TextClient, event: HostIme)
    requires
        c.next_text.len() == 0,
        c.next_shown is None,
    ensures
        ({
            let after = client_after(c, steps_for(event));
            &&& after.next_text.len() == 0
            &&& after.next_shown is None
            &&& match event {
                HostIme::Enabled => after.entered && after.received == c.received && after.shown
                    == c.shown,
                HostIme::Preedit(text, cursor) => {
                    &&& after.entered == c.entered
                    &&& after.received == c.received
                    &&& after.shown is Some
                    &&& after.shown->Some_0.0 == text@
                    &&& cursor is None ==> after.shown->Some_0.1 == -1 && after.shown->Some_0.2
                        == -1
                    &&& cursor matches Some((b, e)) ==> (b <= i32::MAX ==> after.shown->Some_0.1
                        == b) && (e <= i32::MAX ==> after.shown->Some_0.2 == e)
                },
                HostIme::Commit(text) => after.entered == c.entered && after.received == c.received
                    + text@ && after.shown is None,
                HostIme::Disabled => !after.entered && after.received == c.received
                    && after.shown is None,
            }
        }),
{
    reveal_with_fuel(client_after, 4);
    let steps = steps_for(event);
    let after = client_after(c, steps);
    match event {
        HostIme::Enabled => {
            assert(steps.drop_last() =~= seq![]);
        },
        HostIme::Preedit(_, _) => {
            assert(steps.drop_last() =~= seq![steps[0]]);
            assert(seq![steps[0]].drop_last() =~= seq![]);
            assert(after.received =~= c.received);
        },
        HostIme::Commit(_) => {
            assert(steps.drop_last() =~= seq![steps[0], steps[1]]);
            assert(seq![steps[0], steps[1]].drop_last() =~= seq![steps[0]]);
            assert(seq![steps[0]].drop_last() =~= seq![]);
        },
        HostIme::Disabled => {
            assert(steps.drop_last() =~= seq![steps[0], steps[1]]);
            assert(seq![steps[0], steps[1]].drop_last() =~= seq![steps[0]]);
            assert(seq![steps[0]].drop_last() =~= seq![]);
            assert(after.received =~= c.received);
        },
    }
}

/// All the text of commits in a row.
pub open spec fn committed(events: Seq<HostIme>) -> Seq<char>
    decreases events.len(),
{
    if events.len() == 0 {
        seq![]
    } else {
        match events.last() {
            HostIme::Commit(text) => committed(events.drop_last()) + text@,
            _ => committed(events.drop_last()),
        }
    }
}

/// The client after events in a row.
pub open spec fn client_after_events(c: TextClient, events: Seq<HostIme>) -> TextClient
    decreases events.len(),
{
    if events.len() == 0 {
        c
    } else {
        client_after(client_after_events(c, events.drop_last()), steps_for(events.last()))
    }
}

/// A client receives what is committed, all of it and in order, and nothing
/// else.
pub proof fn clients_receive_what_is_committed(c: TextClient, events: Seq<HostIme>)
    requires
        c.next_text.len() == 0,
        c.next_shown is None,
    ensures
        client_after_events(c, events).received == c.received + committed(events),
        client_after_events(c, events).next_text.len() == 0,
        client_after_events(c, events).next_shown is None,
    decreases events.len(),
{
    if events.len() > 0 {
        clients_receive_what_is_committed(c, events.drop_last());
        what_clients_see(client_after_events(c, events.drop_last()), events.last());
    }
    assert(client_after_events(c, events).received =~= c.received + committed(events));
}

// ---------------------------------------------------------------------------
// The host's side
// ---------------------------------------------------------------------------
/// A context that gets the focus is the active one, and the host's input method
/// goes on. Its cursor is placed where the application stands, if both are
/// known; an extent below one counts as one.
pub proof fn focus_in_turns_the_input_method_on(
    ime: ImeView,
    conn: ConnId,
    ic_path: String,
    rect: Option<[i32; 4]>,
    origin: Option<[i32; 2]>,
)
    requires
        rect is Some && origin is Some ==> area_fits(origin->Some_0, rect->Some_0),
    ensures
        ({
            let after = after_event(
                ime,
                FcitxEvent::FocusChanged { conn, ic_path, focused: true, rect },
                origin,
            );
            &&& after.active == Some((conn, ic_path@))
            &&& after.ime_enabled == Some(true)
            &&& after.focused_surface == ime.focused_surface
            &&& if rect is Some && origin is Some {
                is_placed(after, origin->Some_0, rect->Some_0)
            } else {
                after.cursor_area == ime.cursor_area
            }
        }),
{
}

/// Whether the cursor area that waits is that of a client's rectangle, moved by
/// where the application stands.
pub open spec fn is_placed(ime: ImeView, origin: [i32; 2], rect: [i32; 4]) -> bool {
    &&& ime.cursor_area is Some
    &&& ime.cursor_area->Some_0.0[0] == origin[0] + rect[0]
    &&& ime.cursor_area->Some_0.0[1] == origin[1] + rect[1]
    &&& ime.cursor_area->Some_0.1[0] == if rect[2] > 1 {
        rect[2] as int
    } else {
        1
    }
    &&& ime.cursor_area->Some_0.1[1] == if rect[3] > 1 {
        rect[3] as int
    } else {
        1
    }
}

/// The active context that loses the focus, or is gone, leaves none, and the
/// host's input method goes off; its cursor stays where it was.
pub proof fn the_active_context_turns_it_off(
    ime: ImeView,
    conn: ConnId,
    ic_path: String,
    rect: Option<[i32; 4]>,
    origin: Option<[i32; 2]>,
)
    requires
        ime.active == Some((conn, ic_path@)),
    ensures
        ({
            let out = after_event(
                ime,
                FcitxEvent::FocusChanged { conn, ic_path, focused: false, rect },
                origin,
            );
            let gone = after_event(ime, FcitxEvent::IcDestroyed { conn, ic_path }, origin);
            &&& out.active is None
            &&& out.ime_enabled == Some(false)
            &&& out.cursor_area == ime.cursor_area
            &&& out.focused_surface == ime.focused_surface
            &&& gone == out
        }),
{
}

/// The cursor of the active context is placed where the application stands, if
/// that is known; nothing else changes.
pub proof fn the_active_cursor_is_placed(
    ime: ImeView,
    conn: ConnId,
    ic_path: String,
    rect: [i32; 4],
    origin: Option<[i32; 2]>,
)
    requires
        ime.active == Some((conn, ic_path@)),
        origin is Some ==> area_fits(origin->Some_0, rect),
    ensures
        ({
            let after = after_event(
                ime,
                FcitxEvent::CursorRect { conn, ic_path, rect },
                origin,
            );
            &&& after.active == ime.active
            &&& after.ime_enabled == ime.ime_enabled
            &&& after.focused_surface == ime.focused_surface
            &&& if origin is Some {
                is_placed(after, origin->Some_0, rect)
            } else {
                after.cursor_area == ime.cursor_area
            }
        }),
{
}

/// Events of contexts that are not active, and give no focus, change nothing.
pub proof fn other_contexts_change_nothing(
    ime: ImeView,
    conn: ConnId,
    ic_path: String,
    rect: Option<[i32; 4]>,
    place: [i32; 4],
    origin: Option<[i32; 2]>,
)
    requires
        ime.active != Some((conn, ic_path@)),
    ensures
        after_event(
            ime,
            FcitxEvent::FocusChanged { conn, ic_path, focused: false, rect },
            origin,
        ) == ime,
        after_event(ime, FcitxEvent::CursorRect { conn, ic_path, rect: place }, origin) == ime,
        after_event(ime, FcitxEvent::IcDestroyed { conn, ic_path }, origin) == ime,
{
}

/// Nothing is known and nothing waits at first; and a focus that does not move
/// tells nobody.
pub proof fn at_rest(surface: Option<SurfaceId>)
    ensures
        fresh_ime().focused_surface is None,
        fresh_ime().ime_enabled is None,
        fresh_ime().active is None,
        fresh_ime().cursor_area is None,
        transition(surface, surface) == Seq::<FocusStep>::empty(),
{
}

/// A byte offset is sent in 32 bits: as it is where it fits, and else by its
/// residue.
pub proof fn offsets_are_sent_by_their_residue(n: usize)
    ensures
        n <= i32::MAX ==> sent_offset(n) == n,
        (n - sent_offset(n)) % 0x1_0000_0000 == 0,
{
    let low = n as int % 0x1_0000_0000;
    assert((n - low) % 0x1_0000_0000 == 0);
    if low > i32::MAX {
        assert((n - (low - 0x1_0000_0000)) % 0x1_0000_0000 == 0);
    }
}

} // verus!
