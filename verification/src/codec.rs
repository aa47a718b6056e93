//! Length-prefixed frames on the control socket.
//!
//! A frame is the length of its payload, a little-endian `u32`, and the payload,
//! a message in JSON. This module frames and checks bytes; the program around
//! the library turns payloads into messages.

use vstd::prelude::*;

use crate::bytes::{append, copy_range};
use crate::dbus::endian::{
    endian_u32, read_u32, u32_bytes, u32_bytes_len, u32_bytes_round_trip, u32_value, Endian,
};
use crate::text::push_text;

verus! {

broadcast use u32_bytes_len;

/// The largest payload that is accepted (1 MiB).
pub const MAX_FRAME_SIZE: usize = 0x10_0000;

/// Why a frame cannot be written or read.
#[derive(Debug, Clone, PartialEq, Eq)]
pub enum CodecError {
    /// The stream ended inside a frame.
    UnexpectedEof,
    /// A payload to be written is larger than [`MAX_FRAME_SIZE`].
    PayloadTooLarge,
    /// A frame that is read announces a payload larger than [`MAX_FRAME_SIZE`].
    FrameTooLarge,
    /// A payload is no message.
    Malformed(String),
}

/// The two sorts of failure that callers tell apart.
#[derive(Debug, Clone, Copy, PartialEq, Eq, Structural)]
pub enum CodecErrorKind {
    UnexpectedEof,
    InvalidData,
}

/// What a [`CodecError`] stands for.
pub enum CodecErrorView {
    UnexpectedEof,
    PayloadTooLarge,
    FrameTooLarge,
    Malformed(Seq<char>),
}

impl View for CodecError {
    type V = CodecErrorView;

    open spec fn view(&self) -> CodecErrorView {
        match self {
            CodecError::UnexpectedEof => CodecErrorView::UnexpectedEof,
            CodecError::PayloadTooLarge => CodecErrorView::PayloadTooLarge,
            CodecError::FrameTooLarge => CodecErrorView::FrameTooLarge,
            CodecError::Malformed(why) => CodecErrorView::Malformed(why@),
        }
    }
}

/// The message that describes an error.
pub open spec fn codec_error_text(e: CodecErrorView) -> Seq<char> {
    match e {
        CodecErrorView::UnexpectedEof => "unexpected end of file"@,
        CodecErrorView::PayloadTooLarge => "payload exceeds MAX_FRAME_SIZE"@,
        CodecErrorView::FrameTooLarge => "frame exceeds MAX_FRAME_SIZE"@,
        CodecErrorView::Malformed(why) => why,
    }
}

impl CodecError {
    /// The sort of failure.
    pub fn kind(&self) -> (kind: CodecErrorKind)
        ensures
            kind == CodecErrorKind::UnexpectedEof <==> self@ is UnexpectedEof,
    {
        match self {
            CodecError::UnexpectedEof => CodecErrorKind::UnexpectedEof,
            _ => CodecErrorKind::InvalidData,
        }
    }

    /// The message that describes this error.
    pub fn message(&self) -> (text: String)
        ensures
            text@ == codec_error_text(self@),
    {
        let mut text = String::new();
        match self {
            CodecError::UnexpectedEof => push_text(&mut text, "unexpected end of file"),
            CodecError::PayloadTooLarge => push_text(&mut text, "payload exceeds MAX_FRAME_SIZE"),
            CodecError::FrameTooLarge => push_text(&mut text, "frame exceeds MAX_FRAME_SIZE"),
            CodecError::Malformed(why) => push_text(&mut text, why),
        }
        assert(text@ =~= codec_error_text(self@));
        text
    }
}

/// The bytes of a frame.
pub open spec fn framed(payload: Seq<u8>) -> Seq<u8> {
    u32_bytes(Endian::Little, payload.len() as u32) + payload
}

/// Frames a payload.
pub fn write_frame(payload: &[u8]) -> (frame: Result<Vec<u8>, CodecError>)
    ensures
        match frame {
            Ok(bytes) => payload@.len() <= MAX_FRAME_SIZE && bytes@ == framed(payload@),
            Err(e) => payload@.len() > MAX_FRAME_SIZE && e@ == CodecErrorView::PayloadTooLarge,
        },
{
    if payload.len() > MAX_FRAME_SIZE {
        return Err(CodecError::PayloadTooLarge);
    }
    let mut frame: Vec<u8> = Vec::new();
    append(&mut frame, &endian_u32(Endian::Little, payload.len() as u32));
    append(&mut frame, payload);
    assert(frame@ =~= framed(payload@));
    Ok(frame)
}

/// The payload of the frame that starts `input`, a stream that ends there.
/// `Ok(None)` where the stream ends before it, at the boundary of a frame.
pub open spec fn payload_in(input: Seq<u8>) -> Result<Option<Seq<u8>>, CodecErrorView> {
    if input.len() == 0 {
        Ok(None)
    } else if input.len() < 4 {
        Err(CodecErrorView::UnexpectedEof)
    } else {
        let len = u32_value(Endian::Little, input.take(4)) as nat;
        if len > MAX_FRAME_SIZE {
            Err(CodecErrorView::FrameTooLarge)
        } else if input.len() < 4 + len {
            Err(CodecErrorView::UnexpectedEof)
        } else {
            Ok(Some(input.subrange(4, (4 + len) as int)))
        }
    }
}

/// What came of reading a frame, taken by what it stands for.
pub open spec fn read_view(r: Result<Option<Vec<u8>>, CodecError>) -> Result<
    Option<Seq<u8>>,
    CodecErrorView,
> {
    match r {
        Ok(Some(payload)) => Ok(Some(payload@)),
        Ok(None) => Ok(None),
        Err(e) => Err(e@),
    }
}

/// A frame is read back, whatever follows it.
pub proof fn frame_round_trip(payload: Seq<u8>, rest: Seq<u8>)
    requires
        payload.len() <= MAX_FRAME_SIZE,
    ensures
        payload_in(framed(payload) + rest) == Ok::<Option<Seq<u8>>, CodecErrorView>(Some(payload)),
        framed(payload).len() == 4 + payload.len(),
{
    let input = framed(payload) + rest;
    u32_bytes_round_trip(
        Endian::Little,
        payload.len() as u32,
        u32_bytes(Endian::Little, payload.len() as u32),
    );
    assert(input.take(4) =~= u32_bytes(Endian::Little, payload.len() as u32));
    assert(input.subrange(4, (4 + payload.len()) as int) =~= payload);
}

/// The payload length that a frame's first four bytes announce.
pub open spec fn announced(got: Seq<u8>) -> nat {
    u32_value(Endian::Little, got.take(4)) as nat
}

/// Whether `got` is the start of a frame that is accepted, but not a whole one.
pub open spec fn is_partial(got: Seq<u8>) -> bool {
    got.len() < 4 || (announced(got) <= MAX_FRAME_SIZE && got.len() < 4 + announced(got))
}

/// How many bytes are to be read next: those that are missing in the length,
/// then those that are missing in the payload.
pub open spec fn wanted(got: Seq<u8>) -> nat {
    if got.len() < 4 {
        (4 - got.len()) as nat
    } else {
        (4 + announced(got) - got.len()) as nat
    }
}

/// A stream that ends inside a frame is cut off; at the boundary of a frame it
/// is simply over.
pub proof fn end_inside_a_frame(got: Seq<u8>)
    requires
        is_partial(got),
    ensures
        payload_in(got) == if got.len() == 0 {
            Ok::<Option<Seq<u8>>, CodecErrorView>(None)
        } else {
            Err::<Option<Seq<u8>>, CodecErrorView>(CodecErrorView::UnexpectedEof)
        },
{
}

/// Reads the frame that starts `input`, a stream that ends there.
pub fn read_frame(input: &[u8]) -> (payload: Result<Option<Vec<u8>>, CodecError>)
    ensures
        read_view(payload) == payload_in(input@),
{
    if input.len() == 0 {
        return Ok(None);
    }
    if input.len() < 4 {
        return Err(CodecError::UnexpectedEof);
    }
    assert(input@.subrange(0, 4) =~= input@.take(4));
    let len: usize = read_u32(Endian::Little, input, 0) as usize;
    if len > MAX_FRAME_SIZE {
        return Err(CodecError::FrameTooLarge);
    }
    if input.len() - 4 < len {
        return Err(CodecError::UnexpectedEof);
    }
    Ok(Some(copy_range(input, 4, 4 + len)))
}

/// A frame that is being read piece by piece.
#[derive(Debug)]
pub struct FrameReader {
    got: Vec<u8>,
}

impl View for FrameReader {
    type V = Seq<u8>;

    /// The bytes of the frame so far.
    closed spec fn view(&self) -> Seq<u8> {
        self.got@
    }
}

impl FrameReader {
    /// No byte has been read.
    pub fn new() -> (r: FrameReader)
        ensures
            r@ == Seq::<u8>::empty(),
            is_partial(r@),
    {
        let r = FrameReader { got: Vec::new() };
        assert(r@ =~= Seq::<u8>::empty());
        r
    }

    /// How many bytes are to be read next.
    pub fn needed(&self) -> (n: usize)
        requires
            is_partial(self@),
        ensures
            n == wanted(self@),
            n > 0,
    {
        if self.got.len() < 4 {
            4 - self.got.len()
        } else {
            assert(self.got@.subrange(0, 4) =~= self.got@.take(4));
            let len: usize = read_u32(Endian::Little, &self.got, 0) as usize;
            4 + len - self.got.len()
        }
    }

    /// Takes bytes that were read, at most as many as were needed. Gives the
    /// payload once it is complete, and is then ready for the next frame.
    pub fn push(&mut self, chunk: &[u8]) -> (payload: Result<Option<Vec<u8>>, CodecError>)
        requires
            is_partial(old(self)@),
            chunk@.len() <= wanted(old(self)@),
        ensures
            ({
                let got = old(self)@ + chunk@;
                match payload_in(got) {
                    Ok(Some(p)) => payload matches Ok(Some(v)) && v@ == p && got.len() == 4
                        + p.len() && final(self)@ == Seq::<u8>::empty(),
                    Err(CodecErrorView::FrameTooLarge) => payload matches Err(e)
                        && e@ is FrameTooLarge && final(self)@ == got,
                    _ => payload matches Ok(None) && final(self)@ == got && is_partial(got),
                }
            }),
    {
        let ghost before = self.got@;
        append(&mut self.got, chunk);
        proof {
            if before.len() >= 4 {
                assert((before + chunk@).take(4) =~= before.take(4));
            }
        }
        match read_frame(&self.got) {
            Ok(Some(payload)) => {
                self.got = Vec::new();
                assert(self.got@ =~= Seq::<u8>::empty());
                Ok(Some(payload))
            },
            Err(CodecError::FrameTooLarge) => Err(CodecError::FrameTooLarge),
            _ => Ok(None),
        }
    }

    /// The stream has ended: fine at the boundary of a frame.
    pub fn end(&self) -> (r: Result<(), CodecError>)
        ensures
            match r {
                Ok(_) => self@.len() == 0,
                Err(e) => self@.len() > 0 && e@ == CodecErrorView::UnexpectedEof,
            },
    {
        if self.got.len() == 0 {
            Ok(())
        } else {
            Err(CodecError::UnexpectedEof)
        }
    }
}

/// A payload that could not be turned into a message is invalid data.
pub fn parsed_payload<T>(parsed: Result<T, String>) -> (message: Result<T, CodecError>)
    ensures
        match (parsed, message) {
            (Ok(t), Ok(m)) => m == t,
            (Err(why), Err(e)) => e@ == CodecErrorView::Malformed(why@),
            _ => false,
        },
{
    match parsed {
        Ok(t) => Ok(t),
        Err(why) => Err(CodecError::Malformed(why)),
    }
}

} // verus!
