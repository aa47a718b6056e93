//! What holds of the control channel: its frames, and what the proxy does.

use vstd::prelude::*;

use super::client::RETRY_PAUSE_MS;
use super::server::{action_after, offset_after, offset_after_event, step_after, Action, Event, Step};
use crate::codec::{
    codec_error_text, framed, is_partial, payload_in, wanted, CodecErrorView, MAX_FRAME_SIZE,
};
use crate::dbus::endian::{u32_bytes, u32_value, Endian};
use crate::protocol::{EmskinToProxy, ProxyToEmskin};

verus! {

broadcast use crate::dbus::endian::u32_bytes_len;

/// The number in the first four bytes, the least significant first.
pub open spec fn length_in(input: Seq<u8>) -> int {
    input[0] + 256 * input[1] + 65536 * input[2] + 16777216 * input[3]
}

/// A frame is the length of its payload in four bytes, the least significant
/// first, and the payload.
pub proof fn frames_lead_with_their_length(payload: Seq<u8>)
    requires
        payload.len() <= 1_048_576,
    ensures
        framed(payload).len() == 4 + payload.len(),
        length_in(framed(payload)) == payload.len(),
        framed(payload).skip(4) == payload,
        MAX_FRAME_SIZE == 1_048_576,
{
    reveal(u32_bytes);
    let n = payload.len() as u32;
    let lead = u32_bytes(Endian::Little, n);
    let all = framed(payload);
    assert(all[0] == lead[0] && all[1] == lead[1] && all[2] == lead[2] && all[3] == lead[3]);
    assert(n == n % 256 + 256 * (n / 256 % 256) + 65536 * (n / 65536 % 256) + 16777216 * (n
        / 16777216)) by (bit_vector);
    assert(n / 16777216 < 256);
    assert(all.skip(4) =~= payload);
}

/// What is read from a stream that ends: nothing where there is nothing, the
/// payload where it is there in full, and else why not. A length above 1 MiB is
/// refused before its payload is there.
pub proof fn streams_are_read_frame_by_frame(input: Seq<u8>)
    ensures
        input.len() == 0 ==> payload_in(input) == Ok::<Option<Seq<u8>>, CodecErrorView>(None),
        0 < input.len() < 4 ==> payload_in(input) == Err::<Option<Seq<u8>>, CodecErrorView>(
            CodecErrorView::UnexpectedEof,
        ),
        input.len() >= 4 && length_in(input) > 1_048_576 ==> payload_in(input) == Err::<
            Option<Seq<u8>>,
            CodecErrorView,
        >(CodecErrorView::FrameTooLarge),
        input.len() >= 4 && length_in(input) <= 1_048_576 && input.len() < 4 + length_in(input)
            ==> payload_in(input) == Err::<Option<Seq<u8>>, CodecErrorView>(
            CodecErrorView::UnexpectedEof,
        ),
        input.len() >= 4 && length_in(input) <= 1_048_576 && input.len() >= 4 + length_in(input)
            ==> payload_in(input) == Ok::<Option<Seq<u8>>, CodecErrorView>(
            Some(input.subrange(4, 4 + length_in(input))),
        ),
{
    reveal(u32_value);
    if input.len() >= 4 {
        let lead = input.take(4);
        assert(lead[0] == input[0] && lead[1] == input[1] && lead[2] == input[2] && lead[3]
            == input[3]);
        assert(u32_value(Endian::Little, lead) == length_in(input));
    }
}

/// What has been read of a frame is partial where more may still complete it,
/// and a reader never asks for bytes behind the frame.
pub proof fn readers_stop_at_the_end_of_a_frame(got: Seq<u8>, payload: Seq<u8>)
    ensures
        is_partial(got) <==> payload_in(got) == Ok::<Option<Seq<u8>>, CodecErrorView>(None)
            || payload_in(got) == Err::<Option<Seq<u8>>, CodecErrorView>(
            CodecErrorView::UnexpectedEof,
        ),
        payload.len() <= 1_048_576 && got.is_prefix_of(framed(payload)) && got.len() < 4
            + payload.len() ==> is_partial(got) && 0 < wanted(got) && got.len() + wanted(got) <= 4
            + payload.len(),
        payload.len() <= 1_048_576 && got.is_prefix_of(framed(payload)) && 4 <= got.len() < 4
            + payload.len() ==> got.len() + wanted(got) == 4 + payload.len(),
        got.len() < 4 ==> wanted(got) == 4 - got.len(),
{
    streams_are_read_frame_by_frame(got);
    if payload.len() <= 1_048_576 && got.is_prefix_of(framed(payload)) && 4 <= got.len() {
        frames_lead_with_their_length(payload);
        let all = framed(payload);
        assert(got =~= all.subrange(0, got.len() as int));
        assert(got[0] == all[0] && got[1] == all[1] && got[2] == all[2] && got[3] == all[3]);
        reveal(u32_value);
        let lead = got.take(4);
        assert(lead[0] == got[0] && lead[1] == got[1] && lead[2] == got[2] && lead[3] == got[3]);
    }
}

/// The offset is where the focused window stands: the corner of the rectangle
/// that a message gives, none where nothing has focus, and else as it was.
pub proof fn offsets_follow_the_focus(
    ctx: u64,
    rect: [i32; 4],
    msg: EmskinToProxy,
    offset: Option<(i32, i32)>,
)
    ensures
        offset_after(EmskinToProxy::FocusChanged { ctx, rect }, offset) == Some(
            (rect[0], rect[1]),
        ),
        offset_after(EmskinToProxy::RectChanged { ctx, rect }, offset) == Some((rect[0], rect[1])),
        offset_after(EmskinToProxy::FocusCleared, offset) is None,
        !(msg is FocusChanged) && !(msg is RectChanged) && !(msg is FocusCleared) ==> offset_after(
            msg,
            offset,
        ) == offset,
        action_after(msg) == Action::Shutdown <==> msg is Shutdown,
        offset_after_event(Event::Read(Some(msg)), offset) == offset_after(msg, offset),
        offset_after_event(Event::Read(None), offset) == offset,
        offset_after_event(Event::Accepted, offset) == offset,
        offset_after_event(Event::Sent, offset) == offset,
        offset_after_event(Event::Broken, offset) == offset,
        offset_after_event(Event::Interrupted, offset) == offset,
        offset_after_event(Event::AcceptFailed, offset) == offset,
{
}

/// What the proxy does next: it greets a connection, then reads from it until it
/// ends, breaks, or asks for a shutdown; then it takes the next one.
pub proof fn steps_of_the_proxy(msg: EmskinToProxy)
    ensures
        step_after(Event::Accepted) == Step::Send(ProxyToEmskin::Ready),
        step_after(Event::Sent) == Step::Read,
        step_after(Event::Read(Some(EmskinToProxy::Shutdown))) == Step::ShutDown,
        !(msg is Shutdown) ==> step_after(Event::Read(Some(msg))) == Step::Read,
        step_after(Event::Read(None)) == Step::Accept,
        step_after(Event::Broken) == Step::Accept,
        step_after(Event::Interrupted) == Step::Accept,
        step_after(Event::AcceptFailed) == Step::Accept,
        RETRY_PAUSE_MS == 10,
{
}

/// What is said of an error.
pub proof fn codec_error_texts(why: Seq<char>)
    ensures
        codec_error_text(CodecErrorView::UnexpectedEof) == "unexpected end of file"@,
        codec_error_text(CodecErrorView::PayloadTooLarge) == "payload exceeds MAX_FRAME_SIZE"@,
        codec_error_text(CodecErrorView::FrameTooLarge) == "frame exceeds MAX_FRAME_SIZE"@,
        codec_error_text(CodecErrorView::Malformed(why)) == why,
{
}

} // verus!
