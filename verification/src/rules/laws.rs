//! Which messages are translated, and what becomes of them.

use vstd::prelude::*;

use super::cursor::{
    coordinates_at, cursor_call_is_moved, cursor_method, moved_call, moved_message, number_args,
    translation_moves_coordinates_only, CursorMethod,
};
use crate::dbus::args::{body_bytes, ArgView};
use crate::dbus::endian::wrapped;
use crate::dbus::frame::{as_written, frame_bytes, FrameView, Kind};
use crate::dbus::message::{header_of, HeaderView};

verus! {

/// Whether a message is a call of `SetCursorRect` with four numbers, by its
/// kind, interface, member and signature.
pub open spec fn sets_cursor_rect(kind: Kind, names: (Option<Seq<char>>, Option<Seq<char>>, Option<
    Seq<char>,
>)) -> bool {
    &&& kind == Kind::MethodCall
    &&& names.0 == Some("org.fcitx.Fcitx.InputContext1"@)
    &&& names.1 == Some("SetCursorRect"@)
    &&& names.2 == Some("iiii"@)
}

/// Whether a message is a call of fcitx4's `SetCursorLocation` with two numbers.
pub open spec fn sets_cursor_location(
    kind: Kind,
    names: (Option<Seq<char>>, Option<Seq<char>>, Option<Seq<char>>),
) -> bool {
    &&& kind == Kind::MethodCall
    &&& names.0 == Some("org.fcitx.Fcitx.InputContext"@)
    &&& names.1 == Some("SetCursorLocation"@)
    &&& names.2 == Some("ii"@)
}

/// The interface, member and signature in a header.
pub open spec fn names_in(h: HeaderView) -> (Option<Seq<char>>, Option<Seq<char>>, Option<
    Seq<char>,
>) {
    (h.fields.interface, h.fields.member, h.fields.signature)
}

/// A cursor call is told by its kind, interface, member and signature, and by
/// nothing else: flags, serial, path, sender and destination do not matter.
pub proof fn cursor_calls_are_told_by_name(h: HeaderView)
    ensures
        cursor_method(h) == Some(CursorMethod::SetCursorRect) <==> sets_cursor_rect(
            h.msg_type,
            names_in(h),
        ),
        cursor_method(h) == Some(CursorMethod::SetCursorLocation) <==> sets_cursor_location(
            h.msg_type,
            names_in(h),
        ),
{
    reveal_strlit("SetCursorRect");
    reveal_strlit("SetCursorLocation");
    assert("SetCursorRect"@.len() == 13);
    assert("SetCursorLocation"@.len() == 17);
}

/// Messages that are no cursor calls pass unchanged.
pub proof fn other_messages_pass(bytes: Seq<u8>, h: HeaderView, delta: (i32, i32))
    requires
        !sets_cursor_rect(h.msg_type, names_in(h)),
        !sets_cursor_location(h.msg_type, names_in(h)),
    ensures
        moved_message(bytes, h, delta) == bytes,
{
    cursor_calls_are_told_by_name(h);
    translation_moves_coordinates_only(bytes, h, delta);
}

/// The input method gets `SetCursorRect` at the window's position: the bytes of
/// the call become those of the same call with `x` and `y` moved, whatever its
/// flags, serial, path, sender and destination.
pub proof fn cursor_rect_is_moved(
    f: FrameView,
    x: i32,
    y: i32,
    w: i32,
    h: i32,
    delta: (i32, i32),
)
    requires
        f.kind == Kind::MethodCall,
        f.fields.interface == Some("org.fcitx.Fcitx.InputContext1"@),
        f.fields.member == Some("SetCursorRect"@),
        f.fields.signature == Some("iiii"@),
        f.body == body_bytes(
            f.endian,
            seq![ArgView::I32(x), ArgView::I32(y), ArgView::I32(w), ArgView::I32(h)],
        ),
    ensures
        moved_message(frame_bytes(f), header_of(as_written(f)), delta) == frame_bytes(
            FrameView {
                body: body_bytes(
                    f.endian,
                    seq![
                        ArgView::I32(wrapped(x + delta.0)),
                        ArgView::I32(wrapped(y + delta.1)),
                        ArgView::I32(w),
                        ArgView::I32(h),
                    ],
                ),
                ..f
            },
        ),
{
    cursor_calls_are_told_by_name(header_of(as_written(f)));
    let numbers = seq![x, y, w, h];
    assert(number_args(numbers) =~= seq![
        ArgView::I32(x),
        ArgView::I32(y),
        ArgView::I32(w),
        ArgView::I32(h),
    ]);
    cursor_call_is_moved(f, numbers, delta);
    let moved = numbers.update(0, wrapped(x + delta.0)).update(1, wrapped(y + delta.1));
    assert(number_args(moved) =~= seq![
        ArgView::I32(wrapped(x + delta.0)),
        ArgView::I32(wrapped(y + delta.1)),
        ArgView::I32(w),
        ArgView::I32(h),
    ]);
    assert(moved_call(f, numbers, delta).body == body_bytes(f.endian, number_args(moved)));
}

/// The input method gets `SetCursorLocation` at the window's position.
pub proof fn cursor_location_is_moved(f: FrameView, x: i32, y: i32, delta: (i32, i32))
    requires
        f.kind == Kind::MethodCall,
        f.fields.interface == Some("org.fcitx.Fcitx.InputContext"@),
        f.fields.member == Some("SetCursorLocation"@),
        f.fields.signature == Some("ii"@),
        f.body == body_bytes(f.endian, seq![ArgView::I32(x), ArgView::I32(y)]),
    ensures
        moved_message(frame_bytes(f), header_of(as_written(f)), delta) == frame_bytes(
            FrameView {
                body: body_bytes(
                    f.endian,
                    seq![ArgView::I32(wrapped(x + delta.0)), ArgView::I32(wrapped(y + delta.1))],
                ),
                ..f
            },
        ),
{
    cursor_calls_are_told_by_name(header_of(as_written(f)));
    let numbers = seq![x, y];
    assert(number_args(numbers) =~= seq![ArgView::I32(x), ArgView::I32(y)]);
    cursor_call_is_moved(f, numbers, delta);
    let moved = numbers.update(0, wrapped(x + delta.0)).update(1, wrapped(y + delta.1));
    assert(number_args(moved) =~= seq![
        ArgView::I32(wrapped(x + delta.0)),
        ArgView::I32(wrapped(y + delta.1)),
    ]);
    assert(moved_call(f, numbers, delta).body == body_bytes(f.endian, number_args(moved)));
}

/// The coordinates stand at the start of the body, which ends the message: 16
/// bytes of it for a rectangle, 8 for a location. A shorter body has none.
pub proof fn coordinates_start_the_body(h: HeaderView, len: nat)
    ensures
        coordinates_at(h, len) == if h.body_len <= len && ((sets_cursor_rect(
            h.msg_type,
            names_in(h),
        ) && h.body_len >= 16) || (sets_cursor_location(h.msg_type, names_in(h)) && h.body_len
            >= 8)) {
            Some(len - h.body_len)
        } else {
            None::<int>
        },
{
    cursor_calls_are_told_by_name(h);
}

} // verus!
