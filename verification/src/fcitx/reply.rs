//! Replies to the calls that the broker answers itself.

use vstd::prelude::*;

use super::classify::{FcitxMethod, MethodView};
use super::ic::{fresh_state, ic_path, ic_path_is_valid, ic_uuid, IcRegistry, IcState, RegistryView};
use crate::bytes::copy_range;
use crate::dbus::args::{
    arg_bytes, arg_code, body_bytes, body_signature, fits_arg, Arg, ArgView,
};
use crate::dbus::endian::Endian;
use crate::dbus::fields::{raw_of, FieldsView};
use crate::dbus::frame::{
    answer_to, as_written, decodable, encodable, frame_bytes, Frame, FrameView, Kind,
};
use crate::dbus::marshal::{
    after_first_type, after_type, fields_payload, fits_string, is_object_path, is_signature,
    nul_free, readable, reads_back, FieldValueView,
};
use crate::text::{decimal_of_u64, utf8_length};

verus! {

/// The serial after `n`: zero is no serial.
pub open spec fn serial_after(n: u32) -> u32 {
    if n == u32::MAX {
        1
    } else {
        (n + 1) as u32
    }
}

/// Counts on, past zero.
pub fn next_nonzero(counter: &mut u32) -> (serial: u32)
    ensures
        *final(counter) == serial_after(*old(counter)),
        serial == *final(counter),
        serial != 0,
{
    if *counter == u32::MAX {
        *counter = 1;
    } else {
        *counter = *counter + 1;
    }
    *counter
}

/// What becomes of a context by a call on it.
pub open spec fn state_after(state: IcState, method: MethodView) -> IcState {
    match method {
        MethodView::FocusIn { .. } => IcState { focused: true, ..state },
        MethodView::FocusOut { .. } => IcState { focused: false, ..state },
        MethodView::SetCapability { capability, .. } => IcState { capability, ..state },
        MethodView::SetCursorRect { x, y, w, h, .. } => IcState {
            cursor_rect: Some([x, y, w, h]),
            ..state
        },
        MethodView::SetCursorRectV2 { x, y, w, h, .. } => IcState {
            cursor_rect: Some([x, y, w, h]),
            ..state
        },
        MethodView::SetCursorLocation { x, y, .. } => IcState {
            cursor_rect: Some([x, y, 0, 0]),
            ..state
        },
        _ => state,
    }
}

/// The context that a call is made on.
pub open spec fn context_of(method: MethodView) -> Option<Seq<char>> {
    match method {
        MethodView::CreateInputContext { .. } => None,
        MethodView::FocusIn { ic_path } => Some(ic_path),
        MethodView::FocusOut { ic_path } => Some(ic_path),
        MethodView::Reset { ic_path } => Some(ic_path),
        MethodView::DestroyIC { ic_path } => Some(ic_path),
        MethodView::SetCapability { ic_path, .. } => Some(ic_path),
        MethodView::SetCursorRect { ic_path, .. } => Some(ic_path),
        MethodView::SetCursorRectV2 { ic_path, .. } => Some(ic_path),
        MethodView::SetCursorLocation { ic_path, .. } => Some(ic_path),
        MethodView::SetSurroundingText { ic_path, .. } => Some(ic_path),
        MethodView::SetSurroundingTextPosition { ic_path, .. } => Some(ic_path),
    }
}

/// What becomes of a registry by a call.
pub open spec fn follows(before: RegistryView, method: MethodView, after: RegistryView) -> bool {
    match method {
        MethodView::CreateInputContext { .. } => {
            let path = ic_path(before.next_id as nat);
            &&& !before.ics.contains_key(path)
            &&& fresh_state(after.ics[path], before.next_id)
            &&& after == (RegistryView {
                ics: before.ics.insert(path, after.ics[path]),
                next_id: (before.next_id + 1) as u64,
            })
        },
        MethodView::DestroyIC { ic_path } => after == (RegistryView {
            ics: before.ics.remove(ic_path),
            ..before
        }),
        _ => {
            let path = context_of(method)->Some_0;
            after == if before.ics.contains_key(path) {
                RegistryView {
                    ics: before.ics.insert(path, state_after(before.ics[path], method)),
                    ..before
                }
            } else {
                before
            }
        },
    }
}

/// The arguments of the reply to a new context's creation.
pub open spec fn creation_args(id: u64) -> Seq<ArgView> {
    seq![ArgView::ObjectPath(ic_path(id as nat)), ArgView::Bytes(ic_uuid(id))]
}

/// The reply to a call. All but the creation of a context have an empty body.
pub open spec fn reply_frame(
    request: FrameView,
    method: MethodView,
    serial: u32,
    next_id: u64,
) -> FrameView {
    let empty = FrameView { serial, ..answer_to(Kind::MethodReturn, request) };
    match method {
        MethodView::CreateInputContext { .. } => FrameView {
            fields: FieldsView {
                signature: Some(body_signature(creation_args(next_id))),
                ..empty.fields
            },
            body: body_bytes(Endian::Little, creation_args(next_id)),
            ..empty
        },
        _ => empty,
    }
}

/// The reply to a creation names a valid object path, and its arguments are two
/// in a row, not a struct.
pub proof fn creation_signature(id: u64)
    ensures
        is_object_path(ic_path(id as nat)),
        body_signature(creation_args(id)) == "oay"@,
{
    ic_path_is_valid(id as nat);
    reveal_strlit("oay");
    let args = creation_args(id);
    reveal_with_fuel(body_signature, 3);
    assert(args.drop_last().drop_last() =~= seq![]);
    assert(body_signature(args) =~= "oay"@);
}

/// The reply to a creation, written argument by argument.
proof fn creation_body(id: u64)
    ensures
        ({
            let path = ArgView::ObjectPath(ic_path(id as nat));
            let uuid = ArgView::Bytes(ic_uuid(id));
            let first = Seq::<u8>::empty() + arg_bytes(Endian::Little, 0, path);
            &&& fits_arg(0, path)
            &&& fits_arg(first.len(), uuid)
            &&& body_bytes(Endian::Little, creation_args(id)) == first + arg_bytes(
                Endian::Little,
                first.len(),
                uuid,
            )
            &&& body_signature(creation_args(id)) == Seq::<char>::empty() + arg_code(path) + arg_code(
                uuid,
            )
        }),
{
    broadcast use crate::dbus::endian::u32_bytes_len;

    let args = creation_args(id);
    reveal_with_fuel(body_bytes, 3);
    reveal_with_fuel(body_signature, 3);
    assert(args.drop_last() =~= seq![args[0]]);
    assert(args.drop_last().drop_last() =~= seq![]);
    decimal_of_u64(id);
    utf8_length(ic_path(id as nat));
    reveal_strlit("/org/freedesktop/portal/inputcontext/");
}

/// Makes the reply to `method` and brings the registry up to date.
///
/// `serial_counter` counts the serials of the connection's replies.
pub fn build_reply(
    request: &Frame<'_>,
    method: &FcitxMethod,
    registry: &mut IcRegistry,
    serial_counter: &mut u32,
) -> (reply: Vec<u8>)
    requires
        old(registry).wf(),
        method is CreateInputContext ==> old(registry)@.next_id < u64::MAX,
        encodable(
            reply_frame(
                request@,
                method@,
                serial_after(*old(serial_counter)),
                old(registry)@.next_id,
            ),
        ),
    ensures
        final(registry).wf(),
        follows(old(registry)@, method@, final(registry)@),
        *final(serial_counter) == serial_after(*old(serial_counter)),
        reply@ == frame_bytes(
            reply_frame(
                request@,
                method@,
                serial_after(*old(serial_counter)),
                old(registry)@.next_id,
            ),
        ),
{
    let serial: u32 = next_nonzero(serial_counter);
    let frame = match method {
        FcitxMethod::CreateInputContext { .. } => {
            proof {
                creation_body(registry@.next_id);
                creation_signature(registry@.next_id);
                reveal_strlit("oay");
            }
            let (path, state) = registry.allocate();
            let uuid: Vec<u8> = copy_range(&state.uuid, 0, 16);
            assert(uuid@ =~= state.uuid@);
            Frame::method_return(request).serial(serial).body_args().arg(
                &Arg::ObjectPath(path),
            ).arg(&Arg::Bytes(uuid)).done().build()
        },
        FcitxMethod::DestroyIC { ic_path } => {
            registry.destroy(ic_path);
            Frame::method_return(request).serial(serial).build()
        },
        FcitxMethod::FocusIn { ic_path } => {
            if let Some(st) = registry.get_mut(ic_path) {
                st.focused = true;
            }
            Frame::method_return(request).serial(serial).build()
        },
        FcitxMethod::FocusOut { ic_path } => {
            if let Some(st) = registry.get_mut(ic_path) {
                st.focused = false;
            }
            Frame::method_return(request).serial(serial).build()
        },
        FcitxMethod::SetCapability { ic_path, capability } => {
            if let Some(st) = registry.get_mut(ic_path) {
                st.capability = *capability;
            }
            Frame::method_return(request).serial(serial).build()
        },
        FcitxMethod::SetCursorRect { ic_path, x, y, w, h } => {
            if let Some(st) = registry.get_mut(ic_path) {
                st.cursor_rect = Some([*x, *y, *w, *h]);
            }
            Frame::method_return(request).serial(serial).build()
        },
        FcitxMethod::SetCursorRectV2 { ic_path, x, y, w, h, .. } => {
            if let Some(st) = registry.get_mut(ic_path) {
                st.cursor_rect = Some([*x, *y, *w, *h]);
            }
            Frame::method_return(request).serial(serial).build()
        },
        FcitxMethod::SetCursorLocation { ic_path, x, y } => {
            if let Some(st) = registry.get_mut(ic_path) {
                st.cursor_rect = Some([*x, *y, 0, 0]);
            }
            Frame::method_return(request).serial(serial).build()
        },
        FcitxMethod::Reset { ic_path } => {
            proof {
                unchanged(registry@, method@);
            }
            Frame::method_return(request).serial(serial).build()
        },
        FcitxMethod::SetSurroundingText { .. } => {
            proof {
                unchanged(registry@, method@);
            }
            Frame::method_return(request).serial(serial).build()
        },
        FcitxMethod::SetSurroundingTextPosition { .. } => {
            proof {
                unchanged(registry@, method@);
            }
            Frame::method_return(request).serial(serial).build()
        },
    };
    frame.encode()
}

/// A call that says nothing of a context leaves the registry as it is.
proof fn unchanged(registry: RegistryView, method: MethodView)
    requires
        method is Reset || method is SetSurroundingText || method is SetSurroundingTextPosition,
    ensures
        follows(registry, method, registry),
{
    let path = context_of(method)->Some_0;
    if registry.ics.contains_key(path) {
        assert(registry.ics.insert(path, registry.ics[path]) =~= registry.ics);
    }
}

/// Whether an optional name is read as it was written.
pub open spec fn plain_name(name: Option<Seq<char>>) -> bool {
    name matches Some(s) ==> nul_free(s) && fits_string(s)
}

/// `oay` is read as it was written.
proof fn creation_signature_reads_back()
    ensures
        reads_back("oay"@),
{
    reveal_strlit("oay");
    let s = "oay"@;
    utf8_length(s);
    reveal_with_fuel(is_signature, 3);
    reveal_with_fuel(after_type, 3);
    assert(s.skip(1)[0] == 'a');
    assert(s.skip(1).skip(1)[0] == 'y');
    assert(after_first_type(s) == Some(s.skip(1)));
    assert(after_first_type(s.skip(1)) == Some(s.skip(1).skip(1).skip(1)));
    assert(s.skip(1).skip(1).skip(1).len() == 0);
}

/// A client reads from the reply what it says: the reply is read back from the
/// bytes that are sent.
pub proof fn reply_is_read_back(
    request: FrameView,
    method: MethodView,
    serial: u32,
    next_id: u64,
)
    requires
        serial != 0,
        plain_name(request.fields.sender),
        plain_name(request.fields.destination),
        fields_payload(
            Endian::Little,
            raw_of(reply_frame(request, method, serial, next_id).fields),
        ).len() <= u32::MAX,
    ensures
        decodable(reply_frame(request, method, serial, next_id)),
        as_written(reply_frame(request, method, serial, next_id)) == reply_frame(
            request,
            method,
            serial,
            next_id,
        ),
{
    let f = reply_frame(request, method, serial, next_id);
    creation_signature(next_id);
    creation_signature_reads_back();
    creation_length(next_id);
    reveal(raw_of);
    let raw = raw_of(f.fields);
    assert(readable(raw)) by {
        assert forall|i: int| 0 <= i < raw.len() implies match (#[trigger] raw[i]).1 {
            Some(FieldValueView::ObjectPath(s)) => nul_free(s) && fits_string(s),
            Some(FieldValueView::Str(s)) => nul_free(s) && fits_string(s),
            Some(FieldValueView::U32(_)) => true,
            Some(FieldValueView::Signature(s)) => reads_back(s),
            None => false,
        } by {}
    }
}

/// The body of the reply to a creation is short.
proof fn creation_length(id: u64)
    ensures
        body_bytes(Endian::Little, creation_args(id)).len() <= u32::MAX,
{
    broadcast use crate::dbus::endian::u32_bytes_len;

    creation_body(id);
    decimal_of_u64(id);
    utf8_length(ic_path(id as nat));
    reveal_strlit("/org/freedesktop/portal/inputcontext/");
}

/// Whether calls in a row lead from each registry to the next.
pub open spec fn follow_in_turn(registries: Seq<RegistryView>, calls: Seq<MethodView>) -> bool {
    &&& registries.len() == calls.len() + 1
    &&& forall|i: int|
        0 <= i < calls.len() ==> follows(registries[i], #[trigger] calls[i], registries[i + 1])
}

/// Whether the latest `FocusIn` or `FocusOut` on `path` is a `FocusIn`; not so
/// where there is neither.
pub open spec fn latest_is_focus_in(calls: Seq<MethodView>, path: Seq<char>) -> bool {
    exists|i: int|
        0 <= i < calls.len() && #[trigger] calls[i] == (MethodView::FocusIn { ic_path: path }) && (
        forall|j: int|
            i < j < calls.len() ==> #[trigger] calls[j] != (MethodView::FocusOut { ic_path: path }))
}

/// A context that has been allocated, and not destroyed since, is there and has
/// the focus exactly when the latest `FocusIn` or `FocusOut` on it was a
/// `FocusIn`. Calls on other contexts make no difference.
pub proof fn focus_follows_the_latest_call(
    registries: Seq<RegistryView>,
    calls: Seq<MethodView>,
    path: Seq<char>,
    id: u64,
)
    requires
        follow_in_turn(registries, calls),
        registries[0].ics.contains_key(path),
        fresh_state(registries[0].ics[path], id),
        forall|i: int|
            0 <= i < calls.len() ==> #[trigger] calls[i] != (MethodView::DestroyIC {
                ic_path: path,
            }),
    ensures
        registries.last().ics.contains_key(path),
        registries.last().ics[path].focused == latest_is_focus_in(calls, path),
    decreases calls.len(),
{
    if calls.len() > 0 {
        let n = calls.len() - 1;
        let front = calls.drop_last();
        let last = calls.last();
        let before = registries.drop_last();
        assert forall|i: int| 0 <= i < front.len() implies follows(
            before[i],
            #[trigger] front[i],
            before[i + 1],
        ) by {
            assert(front[i] == calls[i]);
        }
        assert forall|i: int| 0 <= i < front.len() implies #[trigger] front[i] != (
        MethodView::DestroyIC { ic_path: path }) by {
            assert(front[i] == calls[i]);
        }
        focus_follows_the_latest_call(before, front, path, id);
        assert(follows(registries[n], calls[n], registries[n + 1]));
        let focus_in = MethodView::FocusIn { ic_path: path };
        let focus_out = MethodView::FocusOut { ic_path: path };
        if last == focus_in {
            assert(calls[n] == focus_in);
        } else if last == focus_out {
            assert forall|i: int| 0 <= i < calls.len() && #[trigger] calls[i] == focus_in implies exists|
                j: int,
            |
                i < j < calls.len() && #[trigger] calls[j] == focus_out by {
                assert(calls[n] == focus_out);
            }
        } else {
            if latest_is_focus_in(front, path) {
                let i = choose|i: int|
                    0 <= i < front.len() && #[trigger] front[i] == focus_in && (forall|j: int|
                        i < j < front.len() ==> #[trigger] front[j] != focus_out);
                assert(calls[i] == focus_in);
                assert forall|j: int| i < j < calls.len() implies #[trigger] calls[j]
                    != focus_out by {
                    if j < n {
                        assert(front[j] == calls[j]);
                    }
                }
            }
            if latest_is_focus_in(calls, path) {
                let i = choose|i: int|
                    0 <= i < calls.len() && #[trigger] calls[i] == focus_in && (forall|j: int|
                        i < j < calls.len() ==> #[trigger] calls[j] != focus_out);
                assert(front[i] == focus_in);
                assert forall|j: int| i < j < front.len() implies #[trigger] front[j]
                    != focus_out by {
                    assert(front[j] == calls[j]);
                }
            }
        }
    }
}

} // verus!
