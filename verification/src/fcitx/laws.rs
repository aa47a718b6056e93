//! What holds of the calls that are recognised, of their replies, and of the
//! input contexts.

use vstd::prelude::*;

use super::classify::{
    announces, called, classified, members_differ, Call, MethodView,
};
use super::ic::{empty_registry, fresh_state, ic_path, ic_uuid, IcState, RegistryView};
use super::reply::{
    creation_args, creation_signature, follows, reply_frame, serial_after,
};
use crate::dbus::args::{body_bytes, ArgView};
use crate::dbus::endian::{u64_bytes_round_trip, u64_value, Endian};
use crate::dbus::fields::FieldsView;
use crate::dbus::frame::{FrameView, Kind};
use crate::text::decimal;

verus! {

// ---------------------------------------------------------------------------
// Replies
// ---------------------------------------------------------------------------
/// A reply answers its request: it is a method return that names the request by
/// its serial and goes back where it came from. The reply to a creation holds
/// the path and the uuid of the new context; the others are empty.
pub proof fn replies_answer_their_requests(
    request: FrameView,
    method: MethodView,
    serial: u32,
    next_id: u64,
)
    ensures
        ({
            let reply = reply_frame(request, method, serial, next_id);
            &&& reply.kind == Kind::MethodReturn
            &&& reply.serial == serial
            &&& reply.flags == 0
            &&& reply.endian == Endian::Little
            &&& reply.fields.reply_serial == Some(request.serial)
            &&& reply.fields.destination == request.fields.sender
            &&& reply.fields.sender == request.fields.destination
            &&& reply.fields.path is None
            &&& reply.fields.interface is None
            &&& reply.fields.member is None
            &&& reply.fields.error_name is None
            &&& reply.fields.unix_fds is None
            &&& if method is CreateInputContext {
                &&& reply.fields.signature == Some("oay"@)
                &&& reply.body == body_bytes(
                    Endian::Little,
                    seq![
                        ArgView::ObjectPath(
                            "/org/freedesktop/portal/inputcontext/"@ + decimal(next_id as nat),
                        ),
                        ArgView::Bytes(ic_uuid(next_id)),
                    ],
                )
            } else {
                &&& reply.fields.signature is None
                &&& reply.body.len() == 0
            }
        }),
{
    creation_signature(next_id);
    assert(creation_args(next_id) =~= seq![
        ArgView::ObjectPath("/org/freedesktop/portal/inputcontext/"@ + decimal(next_id as nat)),
        ArgView::Bytes(ic_uuid(next_id)),
    ]);
}

/// Serials count up by one, and start again at one; zero is none.
pub proof fn serials_count_up(n: u32)
    ensures
        serial_after(n) != 0,
        n < u32::MAX ==> serial_after(n) == n + 1,
        n == u32::MAX ==> serial_after(n) == 1,
{
}

// ---------------------------------------------------------------------------
// Contexts
// ---------------------------------------------------------------------------
/// A context has the path of its number and a uuid that holds the number, with
/// zeroes behind it. Nothing is known of a new one.
pub proof fn new_contexts(id: u64, state: IcState)
    ensures
        ic_path(id as nat) == "/org/freedesktop/portal/inputcontext/"@ + decimal(id as nat),
        ic_uuid(id).len() == 16,
        u64_value(Endian::Little, ic_uuid(id).take(8)) == id,
        forall|i: int| 8 <= i < 16 ==> #[trigger] ic_uuid(id)[i] == 0,
        fresh_state(state, id) ==> {
            &&& state.id == id
            &&& state.uuid@ == ic_uuid(id)
            &&& state.capability == 0
            &&& !state.focused
            &&& state.cursor_rect is None
        },
        empty_registry().next_id == 1,
        forall|path: Seq<char>| !#[trigger] empty_registry().ics.contains_key(path),
{
    u64_bytes_round_trip(Endian::Little, id);
    assert(ic_uuid(id).take(8) =~= crate::dbus::endian::u64_bytes(Endian::Little, id));
}

/// Different contexts have different uuids.
pub proof fn uuids_differ(a: u64, b: u64)
    requires
        ic_uuid(a) == ic_uuid(b),
    ensures
        a == b,
{
    let any: IcState = arbitrary();
    new_contexts(a, any);
    new_contexts(b, any);
}

/// A creation adds the context of the next number, of which nothing is known
/// yet, and counts on. The others stay as they are.
pub proof fn creation_adds_a_context(
    before: RegistryView,
    hints: Seq<(Seq<char>, Seq<char>)>,
    after: RegistryView,
    other: Seq<char>,
)
    requires
        follows(before, MethodView::CreateInputContext { hints }, after),
        before.next_id < u64::MAX,
    ensures
        ({
            let path = "/org/freedesktop/portal/inputcontext/"@ + decimal(before.next_id as nat);
            &&& !before.ics.contains_key(path)
            &&& after.ics.contains_key(path)
            &&& fresh_state(after.ics[path], before.next_id)
            &&& after.next_id == before.next_id + 1
            &&& other != path ==> after.ics.contains_key(other) == before.ics.contains_key(other)
            &&& other != path && before.ics.contains_key(other) ==> after.ics[other]
                == before.ics[other]
        }),
{
}

/// A context that is destroyed is gone; the others stay as they are.
pub proof fn destruction_removes_a_context(
    before: RegistryView,
    path: Seq<char>,
    after: RegistryView,
    other: Seq<char>,
)
    requires
        follows(before, MethodView::DestroyIC { ic_path: path }, after),
    ensures
        !after.ics.contains_key(path),
        after.next_id == before.next_id,
        other != path ==> after.ics.contains_key(other) == before.ics.contains_key(other),
        other != path && before.ics.contains_key(other) ==> after.ics[other] == before.ics[other],
{
}

/// What a call on a context makes known of it: its focus, its capabilities, or
/// its cursor. The rest stays as it was.
pub proof fn calls_are_kept(
    before: RegistryView,
    path: Seq<char>,
    method: MethodView,
    after: RegistryView,
)
    requires
        follows(before, method, after),
        before.ics.contains_key(path),
    ensures
        method == (MethodView::FocusIn { ic_path: path }) ==> after.ics[path] == (IcState {
            focused: true,
            ..before.ics[path]
        }),
        method == (MethodView::FocusOut { ic_path: path }) ==> after.ics[path] == (IcState {
            focused: false,
            ..before.ics[path]
        }),
        method == (MethodView::Reset { ic_path: path }) ==> after.ics[path] == before.ics[path],
        forall|capability: u64|
            method == (#[trigger] capability_call(path, capability)) ==> after.ics[path] == (
            IcState { capability, ..before.ics[path] }),
        forall|x: i32, y: i32, w: i32, h: i32|
            method == (#[trigger] rect_call(path, x, y, w, h)) ==> after.ics[path] == (IcState {
                cursor_rect: Some([x, y, w, h]),
                ..before.ics[path]
            }),
        forall|x: i32, y: i32, w: i32, h: i32, scale: u64|
            method == (#[trigger] scaled_rect_call(path, x, y, w, h, scale)) ==> after.ics[path]
                == (IcState { cursor_rect: Some([x, y, w, h]), ..before.ics[path] }),
        forall|x: i32, y: i32|
            method == (#[trigger] location_call(path, x, y)) ==> after.ics[path] == (IcState {
                cursor_rect: Some([x, y, 0, 0]),
                ..before.ics[path]
            }),
        method is SetSurroundingText || method is SetSurroundingTextPosition ==> after.ics[path]
            == before.ics[path],
{
}

/// `SetCapability` on `path`.
pub open spec fn capability_call(path: Seq<char>, capability: u64) -> MethodView {
    MethodView::SetCapability { ic_path: path, capability }
}

/// `SetCursorRect` on `path`.
pub open spec fn rect_call(path: Seq<char>, x: i32, y: i32, w: i32, h: i32) -> MethodView {
    MethodView::SetCursorRect { ic_path: path, x, y, w, h }
}

/// `SetCursorRectV2` on `path`.
pub open spec fn scaled_rect_call(
    path: Seq<char>,
    x: i32,
    y: i32,
    w: i32,
    h: i32,
    scale: u64,
) -> MethodView {
    MethodView::SetCursorRectV2 { ic_path: path, x, y, w, h, scale }
}

/// `SetCursorLocation` on `path`.
pub open spec fn location_call(path: Seq<char>, x: i32, y: i32) -> MethodView {
    MethodView::SetCursorLocation { ic_path: path, x, y }
}

/// The path that a call names, if it is made on a context.
pub open spec fn named_path(method: MethodView) -> Option<Seq<char>> {
    match method {
        MethodView::CreateInputContext { .. } => None,
        MethodView::FocusIn { ic_path } => Some(ic_path),
        MethodView::FocusOut { ic_path } => Some(ic_path),
        MethodView::Reset { ic_path } => Some(ic_path),
        MethodView::DestroyIC { ic_path } => Some(ic_path),
        MethodView::SetCapability { ic_path, capability: _ } => Some(ic_path),
        MethodView::SetCursorRect { ic_path, x: _, y: _, w: _, h: _ } => Some(ic_path),
        MethodView::SetCursorRectV2 { ic_path, x: _, y: _, w: _, h: _, scale: _ } => Some(ic_path),
        MethodView::SetCursorLocation { ic_path, x: _, y: _ } => Some(ic_path),
        MethodView::SetSurroundingText { ic_path, text: _, cursor: _, anchor: _ } => Some(ic_path),
        MethodView::SetSurroundingTextPosition { ic_path, cursor: _, anchor: _ } => Some(ic_path),
    }
}

/// A call on one context leaves the others alone, and brings none into being; a
/// call on a context that is not there changes nothing.
pub proof fn other_contexts_stay(
    before: RegistryView,
    method: MethodView,
    after: RegistryView,
    other: Seq<char>,
)
    requires
        follows(before, method, after),
        !(method is CreateInputContext),
    ensures
        after.next_id == before.next_id,
        Some(other) != named_path(method) ==> after.ics.contains_key(other)
            == before.ics.contains_key(other),
        Some(other) != named_path(method) && before.ics.contains_key(other) ==> after.ics[other]
            == before.ics[other],
        Some(other) == named_path(method) && !before.ics.contains_key(other)
            ==> !after.ics.contains_key(other),
        Some(other) == named_path(method) && !(method is DestroyIC) && before.ics.contains_key(
            other,
        ) ==> after.ics.contains_key(other),
{
}

// ---------------------------------------------------------------------------
// Recognition
// ---------------------------------------------------------------------------
/// Whether the header fields hold an interface, a member and a signature; no
/// signature counts as the empty one.
pub open spec fn named(fields: FieldsView, iface: Seq<char>, member: Seq<char>, signature: Seq<
    char,
>) -> bool {
    &&& fields.interface == Some(iface)
    &&& fields.member == Some(member)
    &&& match fields.signature {
        Some(s) => s == signature,
        None => signature.len() == 0,
    }
}

/// Whether the header fields are those of a call.
pub open spec fn names_call(fields: FieldsView, call: Call) -> bool {
    let context = "org.fcitx.Fcitx.InputContext1"@;
    match call {
        Call::CreateInputContext => named(
            fields,
            "org.fcitx.Fcitx.InputMethod1"@,
            "CreateInputContext"@,
            "a(ss)"@,
        ),
        Call::FocusIn => named(fields, context, "FocusIn"@, seq![]),
        Call::FocusOut => named(fields, context, "FocusOut"@, seq![]),
        Call::Reset => named(fields, context, "Reset"@, seq![]),
        Call::DestroyIC => named(fields, context, "DestroyIC"@, seq![]),
        Call::SetCapability => named(fields, context, "SetCapability"@, "t"@),
        Call::SetCursorRect => named(fields, context, "SetCursorRect"@, "iiii"@),
        Call::SetCursorRectV2 => named(fields, context, "SetCursorRectV2"@, "iiiid"@),
        Call::SetCursorLocation => named(
            fields,
            "org.fcitx.Fcitx.InputContext"@,
            "SetCursorLocation"@,
            "ii"@,
        ),
        Call::SetSurroundingText => named(fields, context, "SetSurroundingText"@, "suu"@),
        Call::SetSurroundingTextPosition => named(
            fields,
            context,
            "SetSurroundingTextPosition"@,
            "uu"@,
        ),
    }
}

/// A call is told by its interface, member and signature, and by nothing else.
pub proof fn calls_are_told_by_name(fields: FieldsView, call: Call)
    ensures
        called(fields) == Some(call) <==> names_call(fields, call),
{
    reveal_strlit("");
    reveal_strlit("a(ss)");
    reveal_strlit("t");
    reveal_strlit("iiii");
    reveal_strlit("iiiid");
    reveal_strlit("ii");
    reveal_strlit("suu");
    reveal_strlit("uu");
    assert(""@ =~= seq![]);
    if fields.signature is None {
        assert(""@.len() == 0);
        assert("a(ss)"@.len() == 5 && "t"@.len() == 1 && "iiii"@.len() == 4 && "iiiid"@.len() == 5
            && "ii"@.len() == 2 && "suu"@.len() == 3 && "uu"@.len() == 2);
    }
    assert(announces(fields, call) <==> names_call(fields, call));
    if announces(fields, call) {
        members_differ(fields, call, called(fields)->Some_0);
    }
}

/// Calls without arguments are recognised with the path that they are made on.
pub proof fn calls_on_a_context(
    f: FrameView,
    args: Option<Seq<ArgView>>,
    ic_path: Seq<char>,
)
    requires
        f.fields.path == Some(ic_path),
    ensures
        names_call(f.fields, Call::FocusIn) ==> classified(f, args) == Some(
            MethodView::FocusIn { ic_path },
        ),
        names_call(f.fields, Call::FocusOut) ==> classified(f, args) == Some(
            MethodView::FocusOut { ic_path },
        ),
        names_call(f.fields, Call::Reset) ==> classified(f, args) == Some(
            MethodView::Reset { ic_path },
        ),
        names_call(f.fields, Call::DestroyIC) ==> classified(f, args) == Some(
            MethodView::DestroyIC { ic_path },
        ),
{
    calls_are_told_by_name(f.fields, Call::FocusIn);
    calls_are_told_by_name(f.fields, Call::FocusOut);
    calls_are_told_by_name(f.fields, Call::Reset);
    calls_are_told_by_name(f.fields, Call::DestroyIC);
}

/// A creation is recognised with its hints, on whatever path it is made.
pub proof fn creation_has_its_hints(f: FrameView, hints: Seq<(Seq<char>, Seq<char>)>)
    requires
        names_call(f.fields, Call::CreateInputContext),
    ensures
        classified(f, Some(seq![ArgView::StrPairs(hints)])) == Some(
            MethodView::CreateInputContext { hints },
        ),
{
    calls_are_told_by_name(f.fields, Call::CreateInputContext);
}

/// Calls with numbers are recognised with the numbers in their order.
pub proof fn calls_have_their_numbers(
    f: FrameView,
    ic_path: Seq<char>,
    capability: u64,
    x: i32,
    y: i32,
    w: i32,
    h: i32,
    scale: u64,
)
    requires
        f.fields.path == Some(ic_path),
    ensures
        names_call(f.fields, Call::SetCapability) ==> classified(
            f,
            Some(seq![ArgView::U64(capability)]),
        ) == Some(MethodView::SetCapability { ic_path, capability }),
        names_call(f.fields, Call::SetCursorRect) ==> classified(
            f,
            Some(seq![ArgView::I32(x), ArgView::I32(y), ArgView::I32(w), ArgView::I32(h)]),
        ) == Some(MethodView::SetCursorRect { ic_path, x, y, w, h }),
        names_call(f.fields, Call::SetCursorRectV2) ==> classified(
            f,
            Some(
                seq![
                    ArgView::I32(x),
                    ArgView::I32(y),
                    ArgView::I32(w),
                    ArgView::I32(h),
                    ArgView::Double(scale),
                ],
            ),
        ) == Some(MethodView::SetCursorRectV2 { ic_path, x, y, w, h, scale }),
        names_call(f.fields, Call::SetCursorLocation) ==> classified(
            f,
            Some(seq![ArgView::I32(x), ArgView::I32(y)]),
        ) == Some(MethodView::SetCursorLocation { ic_path, x, y }),
{
    calls_are_told_by_name(f.fields, Call::SetCapability);
    calls_are_told_by_name(f.fields, Call::SetCursorRect);
    calls_are_told_by_name(f.fields, Call::SetCursorRectV2);
    calls_are_told_by_name(f.fields, Call::SetCursorLocation);
}

/// Calls about the surrounding text are recognised with it and the positions in
/// it.
pub proof fn calls_have_their_text(
    f: FrameView,
    ic_path: Seq<char>,
    text: Seq<char>,
    cursor: u32,
    anchor: u32,
)
    requires
        f.fields.path == Some(ic_path),
    ensures
        names_call(f.fields, Call::SetSurroundingText) ==> classified(
            f,
            Some(seq![ArgView::Str(text), ArgView::U32(cursor), ArgView::U32(anchor)]),
        ) == Some(MethodView::SetSurroundingText { ic_path, text, cursor, anchor }),
        names_call(f.fields, Call::SetSurroundingTextPosition) ==> classified(
            f,
            Some(seq![ArgView::U32(cursor), ArgView::U32(anchor)]),
        ) == Some(MethodView::SetSurroundingTextPosition { ic_path, cursor, anchor }),
{
    calls_are_told_by_name(f.fields, Call::SetSurroundingText);
    calls_are_told_by_name(f.fields, Call::SetSurroundingTextPosition);
}

/// What has another interface, member or signature than the known calls is not
/// recognised.
pub proof fn nothing_else_is_recognised(f: FrameView, args: Option<Seq<ArgView>>)
    requires
        forall|call: Call| !#[trigger] names_call(f.fields, call),
    ensures
        classified(f, args) is None,
{
    if let Some(call) = called(f.fields) {
        calls_are_told_by_name(f.fields, call);
        assert(names_call(f.fields, call));
    }
}

/// A call that is not made on a context, or whose body is not read, is not
/// recognised; a creation needs no path, and a call without arguments no body.
pub proof fn incomplete_calls_are_not_recognised(
    f: FrameView,
    call: Call,
    args: Option<Seq<ArgView>>,
)
    requires
        names_call(f.fields, call),
    ensures
        call != Call::CreateInputContext && f.fields.path is None ==> classified(f, args) is None,
        call != Call::FocusIn && call != Call::FocusOut && call != Call::Reset && call
            != Call::DestroyIC ==> classified(f, None) is None,
{
    calls_are_told_by_name(f.fields, call);
}

} // verus!
