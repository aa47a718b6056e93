//! What holds of whole frames: where their parts stand, when bytes are refused,
//! and what replies say.

use vstd::prelude::*;

use super::args::{args_in, kinds_of, reads_as, ArgView};
use super::endian::{
    i32_bytes, i32_value, u16_bytes, u32_bytes, u32_value, u64_bytes, wrapped, Endian,
};
use super::fields::{fields_of, raw_of};
use super::frame::{
    answer_to, as_written, empty_frame, error_text, frame_bytes, frame_head, frame_of, frame_size,
    parsed, round8, ErrorView, FrameView, Kind, Prefix,
};
use super::marshal::{
    field_bytes, fields_decoding, fields_payload, fields_section, is_object_path, padding,
    FieldValueView, RawFieldView,
};
use super::message::{header_of, parsed_header};
use crate::text::{decimal, digit};

verus! {

broadcast use super::endian::u32_bytes_len;

/// The first multiple of eight from `n` on.
pub open spec fn next_multiple_of_8(n: int, m: int) -> bool {
    n <= m < n + 8 && m % 8 == 0
}

/// The byte order that the first byte of a message announces: `l` or `B`.
pub open spec fn order_in(buf: Seq<u8>) -> Option<Endian> {
    if buf[0] == 0x6c {
        Some(Endian::Little)
    } else if buf[0] == 0x42 {
        Some(Endian::Big)
    } else {
        None
    }
}

/// The kind that the second byte of a message stands for.
pub open spec fn kind_in(buf: Seq<u8>) -> Option<Kind> {
    if buf[1] == 1 {
        Some(Kind::MethodCall)
    } else if buf[1] == 2 {
        Some(Kind::MethodReturn)
    } else if buf[1] == 3 {
        Some(Kind::Error)
    } else if buf[1] == 4 {
        Some(Kind::Signal)
    } else {
        None
    }
}

/// The number in the four bytes of a message from `at` on.
pub open spec fn number_in(endian: Endian, buf: Seq<u8>, at: int) -> u32 {
    u32_value(endian, buf.subrange(at, at + 4))
}

/// The bytes of a number: the least significant first in little-endian order,
/// and the other way round in big-endian order.
pub proof fn bytes_of_numbers(n: u32)
    ensures
        u32_bytes(Endian::Little, n)[0] == n % 256,
        u32_bytes(Endian::Little, n)[1] == n / 256 % 256,
        u32_bytes(Endian::Little, n)[2] == n / 65536 % 256,
        u32_bytes(Endian::Little, n)[3] == n / 16777216,
        forall|i: int|
            0 <= i < 4 ==> #[trigger] u32_bytes(Endian::Big, n)[i] == u32_bytes(
                Endian::Little,
                n,
            )[3 - i],
{
    reveal(u32_bytes);
    assert(n / 16777216 < 256);
}

/// A sum that leaves the range of an `i32` wraps around: it differs from the sum
/// by a multiple of 2^32.
pub proof fn wrapping_keeps_the_residue(a: i32, b: i32)
    ensures
        wrapped(a + b) == a + b || wrapped(a + b) == a + b - 0x1_0000_0000 || wrapped(a + b) == a
            + b + 0x1_0000_0000,
{
}

/// Where the parts of a written frame stand. The header fields follow the fixed
/// sixteen bytes; the body follows at the next multiple of eight, behind zeroes.
pub proof fn layout(f: FrameView)
    requires
        f.body.len() <= u32::MAX,
        fields_payload(f.endian, raw_of(f.fields)).len() <= u32::MAX,
    ensures
        ({
            let bytes = frame_bytes(f);
            let size = fields_payload(f.endian, raw_of(f.fields)).len();
            let start = bytes.len() - f.body.len();
            &&& order_in(bytes) == Some(f.endian)
            &&& kind_in(bytes) == Some(f.kind)
            &&& bytes[2] == f.flags
            &&& bytes[3] == 1
            &&& bytes.subrange(4, 8) == u32_bytes(f.endian, f.body.len() as u32)
            &&& bytes.subrange(8, 12) == u32_bytes(f.endian, f.serial)
            &&& bytes.subrange(12, 16) == u32_bytes(f.endian, size as u32)
            &&& bytes.subrange(16, 16 + size as int) == fields_payload(
                f.endian,
                raw_of(f.fields),
            )
            &&& next_multiple_of_8(16 + size as int, start)
            &&& forall|i: int| 16 + size <= i < start ==> #[trigger] bytes[i] == 0
            &&& bytes.subrange(start, bytes.len() as int) == f.body
        }),
{
    reveal(frame_bytes);
    let bytes = frame_bytes(f);
    let head = frame_head(f);
    let payload = fields_payload(f.endian, raw_of(f.fields));
    let gap = padding(head.len(), 8);
    assert(head.len() == 16 + payload.len());
    let rest = head.len() % 8;
    assert(gap.len() == (8 - rest) % 8);
    assert((head.len() + gap.len()) % 8 == 0) by {
        if rest == 0 {
            assert((8 - rest) % 8 == 0);
        } else {
            assert((8 - rest) % 8 == 8 - rest);
        }
    }
    assert(bytes[0] == head[0] && bytes[1] == head[1] && bytes[2] == head[2] && bytes[3]
        == head[3]);
    assert(bytes.subrange(4, 8) =~= u32_bytes(f.endian, f.body.len() as u32));
    assert(bytes.subrange(8, 12) =~= u32_bytes(f.endian, f.serial));
    assert(bytes.subrange(12, 16) =~= u32_bytes(f.endian, payload.len() as u32));
    assert(bytes.subrange(16, 16 + payload.len() as int) =~= payload);
    let start = bytes.len() - f.body.len();
    assert forall|i: int| 16 + payload.len() <= i < start implies #[trigger] bytes[i] == 0 by {
        assert(bytes[i] == gap[i - head.len()]);
    }
    assert(bytes.subrange(start, bytes.len() as int) =~= f.body);
}

/// A frame is what its bytes say: the byte order, kind, flags and serial of its
/// fixed header, the fields that are read from the bytes of the header fields,
/// and as many bytes of body as announced, from the next multiple of eight on.
pub proof fn a_frame_is_what_its_bytes_say(buf: Seq<u8>, start: int)
    requires
        parsed(buf) is Ok,
        next_multiple_of_8(
            16 + number_in(order_in(buf)->Some_0, buf, 12) as int,
            start,
        ),
    ensures
        ({
            let f = parsed(buf)->Ok_0;
            let fields_end = 16 + number_in(f.endian, buf, 12) as int;
            &&& buf.len() >= 16
            &&& order_in(buf) == Some(f.endian)
            &&& kind_in(buf) == Some(f.kind)
            &&& f.flags == buf[2]
            &&& buf[3] == 1
            &&& f.serial == number_in(f.endian, buf, 8)
            &&& f.serial != 0
            &&& fields_decoding(f.endian, buf.subrange(12, fields_end)) is Ok
            &&& f.fields == fields_of(
                fields_decoding(f.endian, buf.subrange(12, fields_end))->Ok_0,
            )
            &&& start + number_in(f.endian, buf, 4) <= buf.len()
            &&& f.body == buf.subrange(start, start + number_in(f.endian, buf, 4))
        }),
{
}

/// Bytes are refused for what is wrong with them, the first of these that
/// holds, and for nothing else.
pub proof fn refusals(buf: Seq<u8>, start: int)
    requires
        next_multiple_of_8(
            16 + number_in(order_in(buf)->Some_0, buf, 12) as int,
            start,
        ),
        start + u32::MAX + 7 <= usize::MAX,
    ensures
        ({
            let endian = order_in(buf)->Some_0;
            let fields_end = 16 + number_in(endian, buf, 12) as int;
            let decoded = fields_decoding(endian, buf.subrange(12, fields_end));
            let r = parsed(buf);
            if buf.len() < 16 {
                r == Err::<FrameView, ErrorView>(ErrorView::TooShort)
            } else if order_in(buf) is None {
                r == Err::<FrameView, ErrorView>(ErrorView::InvalidEndian(buf[0]))
            } else if buf[3] != 1 {
                r == Err::<FrameView, ErrorView>(ErrorView::WrongProtocolVersion(buf[3]))
            } else if kind_in(buf) is None {
                r == Err::<FrameView, ErrorView>(ErrorView::InvalidKind(buf[1]))
            } else if number_in(endian, buf, 8) == 0 {
                r == Err::<FrameView, ErrorView>(ErrorView::ZeroSerial)
            } else if buf.len() < fields_end {
                r == Err::<FrameView, ErrorView>(ErrorView::TooShort)
            } else if decoded is Err {
                r == Err::<FrameView, ErrorView>(ErrorView::HeaderFieldsParse(decoded->Err_0))
            } else if buf.len() < start + number_in(endian, buf, 4) {
                r == Err::<FrameView, ErrorView>(ErrorView::TooShort)
            } else {
                r is Ok
            }
        }),
{
}

/// The size of a message is told by its fixed header alone: up to the next
/// multiple of eight behind the header fields, and the body from there. It is
/// refused above 128 MiB.
pub proof fn announced_size(buf: Seq<u8>, start: int)
    requires
        next_multiple_of_8(
            16 + number_in(order_in(buf)->Some_0, buf, 12) as int,
            start,
        ),
        start + u32::MAX + 7 <= usize::MAX,
    ensures
        ({
            let total = start + number_in(order_in(buf)->Some_0, buf, 4);
            let r = frame_size(buf);
            if buf.len() < 16 {
                r == Ok::<Option<nat>, ErrorView>(None)
            } else if order_in(buf) is None {
                r == Err::<Option<nat>, ErrorView>(ErrorView::InvalidEndian(buf[0]))
            } else if buf[3] != 1 {
                r == Err::<Option<nat>, ErrorView>(ErrorView::WrongProtocolVersion(buf[3]))
            } else if total > 134_217_728 {
                r == Err::<Option<nat>, ErrorView>(ErrorView::MessageTooLarge(total as nat))
            } else {
                r == Ok::<Option<nat>, ErrorView>(Some(total as nat))
            }
        }),
{
}

/// The observed header says of a frame all but its body, of which it says the
/// length.
pub proof fn headers_say_all_but_the_body(f: FrameView)
    ensures
        header_of(f).endian == f.endian,
        header_of(f).msg_type == f.kind,
        header_of(f).flags == f.flags,
        header_of(f).serial == f.serial,
        header_of(f).body_len == f.body.len(),
        header_of(f).fields == f.fields,
{
}

/// A frame is written as it is, except for a path that is not a valid object
/// path.
pub proof fn written_as_it_is(f: FrameView)
    ensures
        as_written(f).endian == f.endian,
        as_written(f).kind == f.kind,
        as_written(f).flags == f.flags,
        as_written(f).serial == f.serial,
        as_written(f).body == f.body,
        (f.fields.path matches Some(p) ==> is_object_path(p)) ==> as_written(f).fields == f.fields,
        as_written(f).fields.interface == f.fields.interface,
        as_written(f).fields.member == f.fields.member,
        as_written(f).fields.error_name == f.fields.error_name,
        as_written(f).fields.destination == f.fields.destination,
        as_written(f).fields.sender == f.fields.sender,
        as_written(f).fields.signature == f.fields.signature,
        as_written(f).fields.reply_serial == f.fields.reply_serial,
        as_written(f).fields.unix_fds == f.fields.unix_fds,
{
}

/// An answer names the request by its serial and goes back where the request
/// came from; it has no body and no other field yet.
pub proof fn answers_go_back(kind: Kind, request: FrameView)
    ensures
        ({
            let answer = answer_to(kind, request);
            &&& answer.kind == kind
            &&& answer.endian == Endian::Little
            &&& answer.flags == 0
            &&& answer.fields.reply_serial == Some(request.serial)
            &&& answer.fields.destination == request.fields.sender
            &&& answer.fields.sender == request.fields.destination
            &&& answer.fields.path is None
            &&& answer.fields.interface is None
            &&& answer.fields.member is None
            &&& answer.fields.error_name is None
            &&& answer.fields.signature is None
            &&& answer.fields.unix_fds is None
            &&& answer.body.len() == 0
        }),
{
}

/// A new frame is little-endian and says nothing but its kind.
pub proof fn new_frames_are_empty(kind: Kind)
    ensures
        ({
            let f = empty_frame(kind);
            &&& f.kind == kind
            &&& f.endian == Endian::Little
            &&& f.flags == 0
            &&& f.serial == 0
            &&& f.body.len() == 0
            &&& f.fields.path is None
            &&& f.fields.interface is None
            &&& f.fields.member is None
            &&& f.fields.error_name is None
            &&& f.fields.destination is None
            &&& f.fields.sender is None
            &&& f.fields.signature is None
            &&& f.fields.reply_serial is None
            &&& f.fields.unix_fds is None
        }),
{
}

/// A body with types that have no argument of their own is handed out whole and
/// unchanged, where it is one.
pub proof fn other_bodies_are_unchanged(endian: Endian, signature: Seq<char>, body: Seq<u8>)
    requires
        kinds_of(signature) is None,
    ensures
        args_in(endian, signature, body) is Some <==> reads_as(endian, signature, body),
        args_in(endian, signature, body) matches Some(args) ==> args.len() == 1 && args[0] == (
        ArgView::Encoded { code: signature, bytes: body }),
{
}

/// What is said of an error.
pub proof fn error_texts(b: u8, n: nat, why: Seq<char>)
    ensures
        error_text(ErrorView::InvalidEndian(b)) == "invalid endian byte: 0x"@ + seq![
            digit((b / 16) as nat),
            digit((b % 16) as nat),
        ],
        error_text(ErrorView::InvalidKind(b)) == "invalid message kind byte: "@ + decimal(b as nat),
        error_text(ErrorView::WrongProtocolVersion(b)) == "unsupported protocol version: "@
            + decimal(b as nat),
        error_text(ErrorView::ZeroSerial) == "message serial is zero"@,
        error_text(ErrorView::TooShort) == "buffer shorter than declared frame"@,
        error_text(ErrorView::SizeOverflow) == "frame size computation overflowed"@,
        error_text(ErrorView::MessageTooLarge(n)) == "frame size "@ + decimal(n)
            + " exceeds maximum"@,
        error_text(ErrorView::HeaderFieldsParse(why)) == "header fields parse: "@ + why,
{
}

/// Header fields are written one behind the other, each of them.
pub proof fn every_field_is_written(
    endian: Endian,
    raw: Seq<RawFieldView>,
    code: u8,
    value: FieldValueView,
)
    ensures
        fields_payload(endian, seq![]) == Seq::<u8>::empty(),
        fields_payload(endian, raw.push((code, Some(value)))) == fields_payload(endian, raw)
            + field_bytes(endian, 16 + fields_payload(endian, raw).len(), code, value),
        fields_section(endian, raw) == u32_bytes(
            endian,
            fields_payload(endian, raw).len() as u32,
        ) + fields_payload(endian, raw),
{
    assert(raw.push((code, Some(value))).drop_last() =~= raw);
}

/// A frame is put together from its prefix, its fields, and the bytes of its
/// body, which starts at the next multiple of eight behind the fields.
pub proof fn frames_are_put_together(
    buf: Seq<u8>,
    prefix: Prefix,
    raw: Seq<RawFieldView>,
    why: Seq<char>,
    start: int,
)
    requires
        next_multiple_of_8(prefix.fields_end as int, start),
        start + prefix.body_len + 7 <= usize::MAX,
    ensures
        frame_of(buf, prefix, Err(why)) == Err::<FrameView, ErrorView>(
            ErrorView::HeaderFieldsParse(why),
        ),
        buf.len() < start + prefix.body_len ==> frame_of(buf, prefix, Ok(raw)) == Err::<
            FrameView,
            ErrorView,
        >(ErrorView::TooShort),
        buf.len() >= start + prefix.body_len ==> {
            &&& frame_of(buf, prefix, Ok(raw)) is Ok
            &&& frame_of(buf, prefix, Ok(raw))->Ok_0.endian == prefix.endian
            &&& frame_of(buf, prefix, Ok(raw))->Ok_0.kind == prefix.kind
            &&& frame_of(buf, prefix, Ok(raw))->Ok_0.flags == prefix.flags
            &&& frame_of(buf, prefix, Ok(raw))->Ok_0.serial == prefix.serial
            &&& frame_of(buf, prefix, Ok(raw))->Ok_0.fields == fields_of(raw)
            &&& frame_of(buf, prefix, Ok(raw))->Ok_0.body == buf.subrange(
                start,
                start + prefix.body_len,
            )
        },
{
}

/// The header of a message is that of the frame that is read.
pub proof fn headers_are_those_of_frames(buf: Seq<u8>)
    ensures
        parsed_header(buf) is Ok <==> parsed(buf) is Ok,
        parsed(buf) is Ok ==> parsed_header(buf)->Ok_0 == header_of(parsed(buf)->Ok_0),
        parsed(buf) is Err ==> parsed_header(buf)->Err_0 == parsed(buf)->Err_0,
{
}

/// Signed numbers are written in two's complement, and larger and smaller ones
/// by their halves, in the same order of bytes.
pub proof fn bytes_of_other_numbers(n: i32, m: u64, k: u16, b: Seq<u8>)
    ensures
        n >= 0 ==> i32_bytes(Endian::Little, n) == u32_bytes(Endian::Little, n as u32),
        n >= 0 ==> i32_bytes(Endian::Big, n) == u32_bytes(Endian::Big, n as u32),
        n < 0 ==> i32_bytes(Endian::Little, n) == u32_bytes(
            Endian::Little,
            (0x1_0000_0000 + n) as u32,
        ),
        n < 0 ==> i32_bytes(Endian::Big, n) == u32_bytes(Endian::Big, (0x1_0000_0000 + n) as u32),
        i32_value(Endian::Little, b) == u32_value(Endian::Little, b) || i32_value(Endian::Little, b)
            == u32_value(Endian::Little, b) - 0x1_0000_0000,
        i32_value(Endian::Big, b) == u32_value(Endian::Big, b) || i32_value(Endian::Big, b)
            == u32_value(Endian::Big, b) - 0x1_0000_0000,
        u64_bytes(Endian::Little, m) == u32_bytes(Endian::Little, (m % 0x1_0000_0000) as u32)
            + u32_bytes(Endian::Little, (m / 0x1_0000_0000) as u32),
        u64_bytes(Endian::Big, m) == u32_bytes(Endian::Big, (m / 0x1_0000_0000) as u32) + u32_bytes(
            Endian::Big,
            (m % 0x1_0000_0000) as u32,
        ),
        u16_bytes(Endian::Little, k) == seq![(k % 256) as u8, (k / 256) as u8],
        u16_bytes(Endian::Big, k) == seq![(k / 256) as u8, (k % 256) as u8],
{
}

/// Rounding up gives the first multiple of eight.
pub proof fn rounding_up(n: nat)
    ensures
        next_multiple_of_8(n as int, round8(n) as int),
{
}

} // verus!
