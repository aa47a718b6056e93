//! Translation of cursor coordinates.
//!
//! An embedded application reports its cursor in the coordinates of its own
//! window. The input method places its popup by those of the window around it,
//! so the two first numbers of the body are moved by the window's position.

use vstd::prelude::*;

use crate::dbus::endian::{
    endian_i32, i32_bytes, i32_bytes_round_trip, i32_value, read_i32, u32_bytes_len, wrapped,
    wrapping_sum, Endian,
};
use crate::dbus::args::{arg_bytes, body_bytes, ArgView};
use crate::dbus::frame::{as_written, frame_bytes, frame_head, FrameView};
use crate::dbus::marshal::padding;
use crate::dbus::message::{header_of, Header, HeaderView, MessageType};
use crate::fcitx::{INPUT_CONTEXT_IFACE, INPUT_CONTEXT_IFACE_FCITX4};
use crate::text::same_text;

verus! {

broadcast use u32_bytes_len;

/// The calls whose coordinates are translated.
#[derive(Debug, Clone, Copy, PartialEq, Eq, Structural)]
pub enum CursorMethod {
    /// `InputContext1.SetCursorRect(iiii)`.
    SetCursorRect,
    /// fcitx4: `InputContext.SetCursorLocation(ii)`.
    SetCursorLocation,
}

/// How many bytes the body of a call has at least.
pub open spec fn coordinates_len(method: CursorMethod) -> nat {
    match method {
        CursorMethod::SetCursorRect => 16,
        CursorMethod::SetCursorLocation => 8,
    }
}

/// The call that a header announces, if it is one of those.
pub open spec fn cursor_method(h: HeaderView) -> Option<CursorMethod> {
    if h.msg_type != MessageType::MethodCall {
        None
    } else if h.fields.interface == Some(INPUT_CONTEXT_IFACE@) && h.fields.member == Some(
        "SetCursorRect"@,
    ) && h.fields.signature == Some("iiii"@) {
        Some(CursorMethod::SetCursorRect)
    } else if h.fields.interface == Some(INPUT_CONTEXT_IFACE_FCITX4@) && h.fields.member == Some(
        "SetCursorLocation"@,
    ) && h.fields.signature == Some("ii"@) {
        Some(CursorMethod::SetCursorLocation)
    } else {
        None
    }
}

/// Whether an optional string is `wanted`.
fn is_text(text: &Option<String>, wanted: &str) -> (same: bool)
    ensures
        same == (crate::dbus::fields::text_of(*text) == Some(wanted@)),
{
    match text {
        Some(s) => same_text(s, wanted),
        None => false,
    }
}

/// Tells by its header whether a message carries cursor coordinates.
pub fn classify_cursor(header: &Header) -> (method: Option<CursorMethod>)
    ensures
        method == cursor_method(header@),
{
    if header.msg_type != MessageType::MethodCall {
        None
    } else if is_text(&header.interface, INPUT_CONTEXT_IFACE) && is_text(
        &header.member,
        "SetCursorRect",
    ) && is_text(&header.signature, "iiii") {
        Some(CursorMethod::SetCursorRect)
    } else if is_text(&header.interface, INPUT_CONTEXT_IFACE_FCITX4) && is_text(
        &header.member,
        "SetCursorLocation",
    ) && is_text(&header.signature, "ii") {
        Some(CursorMethod::SetCursorLocation)
    } else {
        None
    }
}

/// The signed number in the four bytes from `at` on.
pub open spec fn i32_at(endian: Endian, buf: Seq<u8>, at: int) -> i32 {
    i32_value(endian, buf.subrange(at, at + 4))
}

/// `buf` with `n` in the four bytes from `at` on.
pub open spec fn with_i32(endian: Endian, buf: Seq<u8>, at: int, n: i32) -> Seq<u8> {
    buf.take(at) + i32_bytes(endian, n) + buf.skip(at + 4)
}

/// `buf` with the number at `at` moved by `d`, with wrap-around.
pub open spec fn moved_by(endian: Endian, buf: Seq<u8>, at: int, d: i32) -> Seq<u8> {
    with_i32(endian, buf, at, wrapped(i32_at(endian, buf, at) + d))
}

/// Where the coordinates stand in a message of `len` bytes, if it carries any.
/// A body that is too short for them is left alone.
pub open spec fn coordinates_at(h: HeaderView, len: nat) -> Option<int> {
    match cursor_method(h) {
        Some(method) => if coordinates_len(method) <= h.body_len <= len {
            Some(len - h.body_len)
        } else {
            None
        },
        None => None,
    }
}

/// The bytes of a message with its coordinates moved by `delta`.
pub open spec fn moved_message(bytes: Seq<u8>, h: HeaderView, delta: (i32, i32)) -> Seq<u8> {
    match coordinates_at(h, bytes.len()) {
        Some(at) => moved_by(h.endian, moved_by(h.endian, bytes, at, delta.0), at + 4, delta.1),
        None => bytes,
    }
}

/// `buf` with the message in `buf[from..to]` moved.
pub open spec fn moved_in(
    buf: Seq<u8>,
    from: int,
    to: int,
    h: HeaderView,
    delta: (i32, i32),
) -> Seq<u8> {
    buf.take(from) + moved_message(buf.subrange(from, to), h, delta) + buf.skip(to)
}

/// Moves one number.
fn shift_i32(endian: Endian, buf: &mut Vec<u8>, at: usize, d: i32)
    requires
        at + 4 <= old(buf)@.len(),
    ensures
        final(buf)@ == moved_by(endian, old(buf)@, at as int, d),
{
    assert(buf@.len() == buf.len());
    let moved: i32 = wrapping_sum(read_i32(endian, buf, at), d);
    let bytes: [u8; 4] = endian_i32(endian, moved);
    buf.set(at, bytes[0]);
    buf.set(at + 1, bytes[1]);
    buf.set(at + 2, bytes[2]);
    buf.set(at + 3, bytes[3]);
    proof {
        i32_bytes_round_trip(endian, moved, bytes@);
        assert(buf@ =~= moved_by(endian, old(buf)@, at as int, d));
    }
}

/// Moving a number inside a part is moving it inside the whole.
proof fn moved_part(endian: Endian, buf: Seq<u8>, from: int, to: int, at: int, d: i32)
    requires
        0 <= from <= at,
        at + 4 <= to <= buf.len(),
    ensures
        moved_by(endian, buf, at, d) == buf.take(from) + moved_by(
            endian,
            buf.subrange(from, to),
            at - from,
            d,
        ) + buf.skip(to),
        moved_by(endian, buf, at, d).len() == buf.len(),
        moved_by(endian, buf, at, d).subrange(from, to) == moved_by(
            endian,
            buf.subrange(from, to),
            at - from,
            d,
        ),
        moved_by(endian, buf, at, d).take(from) == buf.take(from),
        moved_by(endian, buf, at, d).skip(to) == buf.skip(to),
{
    let part = buf.subrange(from, to);
    assert(part.subrange(at - from, at - from + 4) =~= buf.subrange(at, at + 4));
    let n = wrapped(i32_at(endian, buf, at) + d);
    i32_bytes_round_trip(endian, n, buf.subrange(at, at + 4));
    let whole = moved_by(endian, buf, at, d);
    let moved = moved_by(endian, part, at - from, d);
    assert(whole =~= buf.take(from) + moved + buf.skip(to));
    assert(whole.subrange(from, to) =~= moved);
    assert(whole.take(from) =~= buf.take(from));
    assert(whole.skip(to) =~= buf.skip(to));
}

/// Moves the coordinates of the message in `buf[from..to]`, if it carries any.
pub fn rewrite(header: &Header, buf: &mut Vec<u8>, from: usize, to: usize, delta: (i32, i32))
    requires
        from <= to <= old(buf)@.len(),
    ensures
        final(buf)@ == moved_in(old(buf)@, from as int, to as int, header@, delta),
        final(buf)@.len() == old(buf)@.len(),
{
    let ghost all = buf@;
    proof {
        assert(all.take(from as int) + all.subrange(from as int, to as int) + all.skip(to as int)
            =~= all);
    }
    let needed: usize = match classify_cursor(header) {
        Some(CursorMethod::SetCursorRect) => 16,
        Some(CursorMethod::SetCursorLocation) => 8,
        None => {
            return;
        },
    };
    if header.body_len < needed || header.body_len > to - from {
        return;
    }
    let at: usize = to - header.body_len;
    proof {
        moved_part(header.endian, all, from as int, to as int, at as int, delta.0);
    }
    shift_i32(header.endian, buf, at, delta.0);
    proof {
        moved_part(header.endian, buf@, from as int, to as int, at + 4, delta.1);
    }
    shift_i32(header.endian, buf, at + 4, delta.1);
}

/// Moving a number changes that number and nothing else.
proof fn moved_number(endian: Endian, buf: Seq<u8>, at: int, d: i32)
    requires
        0 <= at,
        at + 4 <= buf.len(),
    ensures
        moved_by(endian, buf, at, d).len() == buf.len(),
        i32_at(endian, moved_by(endian, buf, at, d), at) == wrapped(i32_at(endian, buf, at) + d),
        forall|j: int|
            0 <= j < buf.len() && !(at <= j < at + 4) ==> #[trigger] moved_by(
                endian,
                buf,
                at,
                d,
            )[j] == buf[j],
        d == 0 ==> moved_by(endian, buf, at, d) == buf,
{
    let n = wrapped(i32_at(endian, buf, at) + d);
    let b = buf.subrange(at, at + 4);
    i32_bytes_round_trip(endian, n, b);
    let moved = moved_by(endian, buf, at, d);
    assert(moved.subrange(at, at + 4) =~= i32_bytes(endian, n));
    if d == 0 {
        assert(i32_bytes(endian, n) == b);
        assert(moved =~= buf);
    }
}

/// Moves of one number add up.
proof fn number_moves_add_up(endian: Endian, buf: Seq<u8>, at: int, d: i32, e: i32)
    requires
        0 <= at,
        at + 4 <= buf.len(),
    ensures
        moved_by(endian, moved_by(endian, buf, at, d), at, e) == moved_by(
            endian,
            buf,
            at,
            wrapped(d + e),
        ),
{
    let once = moved_by(endian, buf, at, d);
    moved_number(endian, buf, at, d);
    moved_number(endian, once, at, e);
    moved_number(endian, buf, at, wrapped(d + e));
    let n = i32_at(endian, buf, at);
    assert(wrapped(wrapped(n + d) + e) == wrapped(n + wrapped(d + e)));
    let m = wrapped(n + wrapped(d + e));
    i32_bytes_round_trip(endian, m, buf.subrange(at, at + 4));
    i32_bytes_round_trip(endian, wrapped(n + d), buf.subrange(at, at + 4));
    assert(with_i32(endian, once, at, m) =~= with_i32(endian, buf, at, m));
}

/// Moves of two numbers do not disturb each other.
proof fn number_moves_commute(endian: Endian, buf: Seq<u8>, at: int, d: i32, e: i32)
    requires
        0 <= at,
        at + 8 <= buf.len(),
    ensures
        moved_by(endian, moved_by(endian, buf, at, d), at + 4, e) == moved_by(
            endian,
            moved_by(endian, buf, at + 4, e),
            at,
            d,
        ),
{
    let x = wrapped(i32_at(endian, buf, at) + d);
    let y = wrapped(i32_at(endian, buf, at + 4) + e);
    let b = buf.subrange(at, at + 4);
    i32_bytes_round_trip(endian, x, b);
    i32_bytes_round_trip(endian, y, b);
    let first = moved_by(endian, buf, at, d);
    let second = moved_by(endian, buf, at + 4, e);
    assert(first.subrange(at + 4, at + 8) =~= buf.subrange(at + 4, at + 8));
    assert(second.subrange(at, at + 4) =~= buf.subrange(at, at + 4));
    assert(with_i32(endian, first, at + 4, y) =~= with_i32(endian, second, at, x));
}

/// A translation moves the two coordinates of a cursor call by its two parts,
/// and leaves every other byte as it is; a message that is no cursor call it
/// leaves alone.
pub proof fn translation_moves_coordinates_only(
    bytes: Seq<u8>,
    h: HeaderView,
    delta: (i32, i32),
)
    ensures
        moved_message(bytes, h, delta).len() == bytes.len(),
        cursor_method(h) is None ==> moved_message(bytes, h, delta) == bytes,
        match coordinates_at(h, bytes.len()) {
            Some(at) => {
                let moved = moved_message(bytes, h, delta);
                &&& 0 <= at
                &&& at + 8 <= bytes.len()
                &&& i32_at(h.endian, moved, at) == wrapped(i32_at(h.endian, bytes, at) + delta.0)
                &&& i32_at(h.endian, moved, at + 4) == wrapped(
                    i32_at(h.endian, bytes, at + 4) + delta.1,
                )
                &&& forall|j: int|
                    0 <= j < bytes.len() && !(at <= j < at + 8) ==> #[trigger] moved[j] == bytes[j]
            },
            None => moved_message(bytes, h, delta) == bytes,
        },
{
    if let Some(at) = coordinates_at(h, bytes.len()) {
        moved_number(h.endian, bytes, at, delta.0);
        let once = moved_by(h.endian, bytes, at, delta.0);
        moved_number(h.endian, once, at + 4, delta.1);
        let moved = moved_by(h.endian, once, at + 4, delta.1);
        assert(once.subrange(at + 4, at + 8) =~= bytes.subrange(at + 4, at + 8));
        assert(moved.subrange(at, at + 4) =~= once.subrange(at, at + 4));
        assert forall|j: int| 0 <= j < bytes.len() && !(at <= j < at + 8) implies #[trigger] moved[j]
            == bytes[j] by {
            assert(moved[j] == once[j]);
        }
    }
}

/// Translations add up, with wrap-around: two in a row are one by the sum.
pub proof fn translations_add_up(bytes: Seq<u8>, h: HeaderView, d: (i32, i32), e: (i32, i32))
    ensures
        moved_message(moved_message(bytes, h, d), h, e) == moved_message(
            bytes,
            h,
            (wrapped(d.0 + e.0), wrapped(d.1 + e.1)),
        ),
{
    translation_moves_coordinates_only(bytes, h, d);
    if let Some(at) = coordinates_at(h, bytes.len()) {
        let x = moved_by(h.endian, bytes, at, d.0);
        moved_number(h.endian, bytes, at, d.0);
        moved_number(h.endian, x, at + 4, d.1);
        number_moves_commute(h.endian, x, at, e.0, d.1);
        number_moves_add_up(h.endian, bytes, at, d.0, e.0);
        let xx = moved_by(h.endian, x, at, e.0);
        moved_number(h.endian, x, at, e.0);
        number_moves_add_up(h.endian, xx, at + 4, d.1, e.1);
    }
}

/// A translation is undone by the opposite one.
pub proof fn translation_is_undone(bytes: Seq<u8>, h: HeaderView, d: (i32, i32), e: (i32, i32))
    requires
        wrapped(d.0 + e.0) == 0,
        wrapped(d.1 + e.1) == 0,
    ensures
        moved_message(moved_message(bytes, h, d), h, e) == bytes,
{
    translations_add_up(bytes, h, d, e);
    if let Some(at) = coordinates_at(h, bytes.len()) {
        moved_number(h.endian, bytes, at, 0);
        moved_number(h.endian, bytes, at + 4, 0);
    }
}

// ---------------------------------------------------------------------------
// Whole calls
// ---------------------------------------------------------------------------
/// The arguments of a call with the given numbers.
pub open spec fn number_args(numbers: Seq<i32>) -> Seq<ArgView> {
    numbers.map_values(|n: i32| ArgView::I32(n))
}

/// Numbers one behind the other.
pub open spec fn number_bytes(endian: Endian, numbers: Seq<i32>) -> Seq<u8>
    decreases numbers.len(),
{
    if numbers.len() == 0 {
        seq![]
    } else {
        number_bytes(endian, numbers.drop_last()) + i32_bytes(endian, numbers.last())
    }
}

/// A body of numbers needs no alignment between them.
proof fn number_body(endian: Endian, numbers: Seq<i32>)
    ensures
        body_bytes(endian, number_args(numbers)) == number_bytes(endian, numbers),
        number_bytes(endian, numbers).len() == 4 * numbers.len(),
    decreases numbers.len(),
{
    if numbers.len() > 0 {
        let args = number_args(numbers);
        number_body(endian, numbers.drop_last());
        i32_bytes_round_trip(endian, numbers.last(), i32_bytes(endian, numbers.last()));
        assert(args.drop_last() =~= number_args(numbers.drop_last()));
        assert(args.last() == ArgView::I32(numbers.last()));
        let at = number_bytes(endian, numbers.drop_last()).len();
        assert(at % 4 == 0);
        assert(padding(at, 4) =~= seq![]);
        assert(arg_bytes(endian, at, args.last()) =~= i32_bytes(endian, numbers.last()));
    }
}

/// Moving one of the numbers in a row.
proof fn moved_among(endian: Endian, front: Seq<u8>, numbers: Seq<i32>, i: int, d: i32)
    requires
        0 <= i < numbers.len(),
    ensures
        moved_by(endian, front + number_bytes(endian, numbers), front.len() + 4 * i, d) == front
            + number_bytes(endian, numbers.update(i, wrapped(numbers[i] + d))),
    decreases numbers.len(),
{
    let moved = numbers.update(i, wrapped(numbers[i] + d));
    let less = numbers.drop_last();
    let last = i32_bytes(endian, numbers.last());
    let at = front.len() + 4 * i;
    number_body(endian, numbers);
    number_body(endian, less);
    number_body(endian, moved);
    let all = front + number_bytes(endian, numbers);
    i32_bytes_round_trip(endian, numbers.last(), last);
    assert(all =~= front + number_bytes(endian, less) + last);
    if i == numbers.len() - 1 {
        let n = wrapped(numbers[i] + d);
        i32_bytes_round_trip(endian, n, last);
        assert(all.subrange(at, at + 4) =~= last);
        assert(moved.drop_last() =~= less);
        assert(with_i32(endian, all, at, n) =~= front + number_bytes(endian, moved));
    } else {
        let inner = front + number_bytes(endian, less);
        moved_among(endian, front, less, i, d);
        number_body(endian, moved.drop_last());
        moved_part(endian, all, 0, inner.len() as int, at, d);
        assert(all.subrange(0, inner.len() as int) =~= inner);
        assert(all.take(0) =~= seq![]);
        assert(all.skip(inner.len() as int) =~= last);
        assert(moved.drop_last() =~= less.update(i, wrapped(less[i] + d)));
        assert(moved.last() == numbers.last());
        assert(moved_by(endian, all, at, d) =~= front + number_bytes(endian, moved));
    }
}

/// `f` with its first two numbers moved.
pub open spec fn moved_call(f: FrameView, numbers: Seq<i32>, delta: (i32, i32)) -> FrameView {
    let moved = numbers.update(0, wrapped(numbers[0] + delta.0)).update(
        1,
        wrapped(numbers[1] + delta.1),
    );
    FrameView { body: body_bytes(f.endian, number_args(moved)), ..f }
}

/// The input method gets a cursor call with its coordinates moved: the bytes of
/// a call become those of the call at the moved position, and all else in it
/// stays.
pub proof fn cursor_call_is_moved(f: FrameView, numbers: Seq<i32>, delta: (i32, i32))
    requires
        cursor_method(header_of(as_written(f))) matches Some(method) && 4 * numbers.len()
            >= coordinates_len(method),
        f.body == body_bytes(f.endian, number_args(numbers)),
    ensures
        moved_message(frame_bytes(f), header_of(as_written(f)), delta) == frame_bytes(
            moved_call(f, numbers, delta),
        ),
{
    let h = header_of(as_written(f));
    let once = numbers.update(0, wrapped(numbers[0] + delta.0));
    let twice = once.update(1, wrapped(numbers[1] + delta.1));
    number_body(f.endian, numbers);
    number_body(f.endian, once);
    number_body(f.endian, twice);
    let bytes = frame_bytes(f);
    let moved = moved_call(f, numbers, delta);
    reveal(frame_bytes);
    let front = frame_head(f) + padding(frame_head(f).len(), 8);
    assert(frame_head(moved) == frame_head(f));
    assert(bytes == front + number_bytes(f.endian, numbers));
    let at = front.len() as int;
    assert(coordinates_at(h, bytes.len()) == Some(at));
    moved_among(f.endian, front, numbers, 0, delta.0);
    moved_among(f.endian, front, once, 1, delta.1);
}

} // verus!
