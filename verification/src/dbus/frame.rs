//! D-Bus message frames: one type for parsing, encoding and inspection.
//!
//! ```text
//! offset  size  field
//! ------  ----  ----------------------------------------------
//!   0     1     byte order: 'l' (little) or 'B' (big)
//!   1     1     message kind (1=call, 2=return, 3=error, 4=signal)
//!   2     1     flags
//!   3     1     protocol version (must be 1)
//!   4     4     body length
//!   8     4     serial (must not be zero)
//!  12     4     length of the header-fields array in bytes
//!  16     N     header fields (array of (byte, variant) structs)
//!  ...   pad    zeroes up to a multiple of eight
//!  B     body_len  message body
//! ```

use std::borrow::Cow;

use vstd::prelude::*;

use super::endian::{endian_u32, read_u32, u32_bytes, u32_bytes_round_trip, u32_value};
use super::fields::{
    copy_text, encodable_fields, fields_of, fields_round_trip, kept_fields, no_fields, raw_of,
    FieldsView,
};
use super::args::{
    arg_bytes, arg_code, arg_views, args_in, args_view, body_bytes, body_signature, decode_by_signature,
    fits_arg, fits_args, of_types, readable_args, write_arg, Arg, ArgView,
};
use super::marshal::{
    decode_fields, fields_decoding, fields_payload, fields_section, padding, raw_views, readable,
    RawField, RawFieldView,
};
use crate::bytes::{append, copy_range};
use crate::text::{decimal, digit, push_decimal, push_hex, push_text, same_text};

pub use super::endian::Endian;
pub use super::fields::Fields;

pub mod field_code;

verus! {

broadcast use super::endian::u32_bytes_len;

/// Fixed prefix before the header-fields array.
pub const FIXED_HEADER_LEN: usize = 16;

/// The largest message that is accepted (128 MiB), so that a peer cannot make
/// the broker allocate without bound.
pub const MAX_MESSAGE_SIZE: usize = 128 * 1024 * 1024;

/// The letter `l`, which announces little-endian order.
pub const LITTLE_MARK: u8 = 0x6c;

/// The letter `B`, which announces big-endian order.
pub const BIG_MARK: u8 = 0x42;

/// Kind of a message.
#[derive(Debug, Clone, Copy, PartialEq, Eq, Structural)]
pub enum Kind {
    MethodCall,
    MethodReturn,
    Error,
    Signal,
}

/// The byte that stands for a kind.
pub open spec fn kind_byte(kind: Kind) -> u8 {
    match kind {
        Kind::MethodCall => 1,
        Kind::MethodReturn => 2,
        Kind::Error => 3,
        Kind::Signal => 4,
    }
}

impl Kind {
    /// The byte that stands for this kind.
    pub fn to_byte(self) -> (b: u8)
        ensures
            b == kind_byte(self),
    {
        match self {
            Kind::MethodCall => 1,
            Kind::MethodReturn => 2,
            Kind::Error => 3,
            Kind::Signal => 4,
        }
    }

    /// The kind that `b` stands for.
    pub fn from_byte(b: u8) -> (kind: Result<Kind, Error>)
        ensures
            match kind {
                Ok(k) => kind_byte(k) == b,
                Err(e) => e@ == ErrorView::InvalidKind(b) && !(1 <= b <= 4),
            },
    {
        match b {
            1 => Ok(Kind::MethodCall),
            2 => Ok(Kind::MethodReturn),
            3 => Ok(Kind::Error),
            4 => Ok(Kind::Signal),
            _ => Err(Error::InvalidKind(b)),
        }
    }
}

/// Why bytes are not a frame.
#[derive(Debug, Clone, PartialEq, Eq)]
pub enum Error {
    InvalidEndian(u8),
    InvalidKind(u8),
    WrongProtocolVersion(u8),
    ZeroSerial,
    TooShort,
    SizeOverflow,
    MessageTooLarge(usize),
    HeaderFieldsParse(String),
}

/// What an [`Error`] stands for.
pub enum ErrorView {
    InvalidEndian(u8),
    InvalidKind(u8),
    WrongProtocolVersion(u8),
    ZeroSerial,
    TooShort,
    SizeOverflow,
    MessageTooLarge(nat),
    HeaderFieldsParse(Seq<char>),
}

impl View for Error {
    type V = ErrorView;

    open spec fn view(&self) -> ErrorView {
        match self {
            Error::InvalidEndian(b) => ErrorView::InvalidEndian(*b),
            Error::InvalidKind(b) => ErrorView::InvalidKind(*b),
            Error::WrongProtocolVersion(v) => ErrorView::WrongProtocolVersion(*v),
            Error::ZeroSerial => ErrorView::ZeroSerial,
            Error::TooShort => ErrorView::TooShort,
            Error::SizeOverflow => ErrorView::SizeOverflow,
            Error::MessageTooLarge(n) => ErrorView::MessageTooLarge(*n as nat),
            Error::HeaderFieldsParse(s) => ErrorView::HeaderFieldsParse(s@),
        }
    }
}

/// The message that describes an error.
pub open spec fn error_text(e: ErrorView) -> Seq<char> {
    match e {
        ErrorView::InvalidEndian(b) => "invalid endian byte: 0x"@ + seq![
            digit((b / 16) as nat),
            digit((b % 16) as nat),
        ],
        ErrorView::InvalidKind(b) => "invalid message kind byte: "@ + decimal(b as nat),
        ErrorView::WrongProtocolVersion(v) => "unsupported protocol version: "@ + decimal(v as nat),
        ErrorView::ZeroSerial => "message serial is zero"@,
        ErrorView::TooShort => "buffer shorter than declared frame"@,
        ErrorView::SizeOverflow => "frame size computation overflowed"@,
        ErrorView::MessageTooLarge(n) => "frame size "@ + decimal(n) + " exceeds maximum"@,
        ErrorView::HeaderFieldsParse(s) => "header fields parse: "@ + s,
    }
}

impl Error {
    /// The message that describes this error.
    pub fn message(&self) -> (text: String)
        ensures
            text@ == error_text(self@),
    {
        let mut text = String::new();
        match self {
            Error::InvalidEndian(b) => {
                push_text(&mut text, "invalid endian byte: 0x");
                push_hex(&mut text, *b);
            },
            Error::InvalidKind(b) => {
                push_text(&mut text, "invalid message kind byte: ");
                push_decimal(&mut text, *b as u64);
            },
            Error::WrongProtocolVersion(v) => {
                push_text(&mut text, "unsupported protocol version: ");
                push_decimal(&mut text, *v as u64);
            },
            Error::ZeroSerial => push_text(&mut text, "message serial is zero"),
            Error::TooShort => push_text(&mut text, "buffer shorter than declared frame"),
            Error::SizeOverflow => push_text(&mut text, "frame size computation overflowed"),
            Error::MessageTooLarge(n) => {
                push_text(&mut text, "frame size ");
                push_decimal(&mut text, *n as u64);
                push_text(&mut text, " exceeds maximum");
            },
            Error::HeaderFieldsParse(s) => {
                push_text(&mut text, "header fields parse: ");
                push_text(&mut text, s);
            },
        }
        assert(text@ =~= error_text(self@));
        text
    }
}

// ---------------------------------------------------------------------------
// Frames
// ---------------------------------------------------------------------------
/// One complete message. [`Frame::parse`] borrows the body from its input;
/// [`Builder::build`] makes one that owns it.
#[derive(Debug, PartialEq, Eq)]
pub struct Frame<'a> {
    pub endian: Endian,
    pub kind: Kind,
    pub flags: u8,
    pub serial: u32,
    pub fields: Fields,
    pub body: Cow<'a, [u8]>,
}

/// What a [`Frame`] stands for.
#[verifier::ext_equal]
pub struct FrameView {
    pub endian: Endian,
    pub kind: Kind,
    pub flags: u8,
    pub serial: u32,
    pub fields: FieldsView,
    pub body: Seq<u8>,
}

impl View for Frame<'_> {
    type V = FrameView;

    open spec fn view(&self) -> FrameView {
        FrameView {
            endian: self.endian,
            kind: self.kind,
            flags: self.flags,
            serial: self.serial,
            fields: self.fields@,
            body: self.body@,
        }
    }
}

impl Clone for Frame<'_> {
    fn clone(&self) -> (copy: Self)
        ensures
            copy@ == self@,
    {
        Frame {
            endian: self.endian,
            kind: self.kind,
            flags: self.flags,
            serial: self.serial,
            fields: self.fields.clone(),
            body: match &self.body {
                Cow::Borrowed(b) => Cow::Borrowed(b),
                Cow::Owned(v) => Cow::Owned(copy_range(v, 0, v.len())),
            },
        }
    }
}

/// The byte that announces a byte order.
pub open spec fn endian_byte(endian: Endian) -> u8 {
    match endian {
        Endian::Little => LITTLE_MARK,
        Endian::Big => BIG_MARK,
    }
}

/// The byte order that a byte announces.
pub open spec fn endian_of(b: u8) -> Option<Endian> {
    if b == LITTLE_MARK {
        Some(Endian::Little)
    } else if b == BIG_MARK {
        Some(Endian::Big)
    } else {
        None
    }
}

/// The kind that a byte stands for.
pub open spec fn kind_of(b: u8) -> Option<Kind> {
    if b == 1 {
        Some(Kind::MethodCall)
    } else if b == 2 {
        Some(Kind::MethodReturn)
    } else if b == 3 {
        Some(Kind::Error)
    } else if b == 4 {
        Some(Kind::Signal)
    } else {
        None
    }
}

/// The first multiple of eight from `n` on.
pub open spec fn round8(n: nat) -> nat {
    (n + 7) / 8 * 8
}

/// The four bytes that are sure to start every frame.
pub open spec fn frame_start(f: FrameView) -> Seq<u8> {
    seq![endian_byte(f.endian), kind_byte(f.kind), f.flags, 1u8]
}

/// A frame up to the end of its header fields. The length of the body is
/// written in four bytes, as far as it fits there.
pub open spec fn frame_head(f: FrameView) -> Seq<u8> {
    frame_start(f) + u32_bytes(f.endian, (f.body.len() % 0x1_0000_0000) as u32) + u32_bytes(
        f.endian,
        f.serial,
    ) + fields_section(f.endian, raw_of(f.fields))
}

/// The bytes of a whole frame.
#[verifier::opaque]
pub open spec fn frame_bytes(f: FrameView) -> Seq<u8> {
    frame_head(f) + padding(frame_head(f).len(), 8) + f.body
}

/// Whether a frame can be written.
pub open spec fn encodable(f: FrameView) -> bool {
    &&& encodable_fields(f.endian, f.fields)
    &&& frame_bytes(f).len() <= usize::MAX
}

/// The byte order that `b` announces.
fn parse_endian(b: u8) -> (endian: Result<Endian, Error>)
    ensures
        match endian {
            Ok(e) => endian_of(b) == Some(e),
            Err(e) => endian_of(b) is None && e@ == ErrorView::InvalidEndian(b),
        },
{
    if b == LITTLE_MARK {
        Ok(Endian::Little)
    } else if b == BIG_MARK {
        Ok(Endian::Big)
    } else {
        Err(Error::InvalidEndian(b))
    }
}

/// The first multiple of eight from `n` on, where one is in range.
pub fn align8(n: usize) -> (aligned: Option<usize>)
    ensures
        match aligned {
            Some(a) => n + 7 <= usize::MAX && a == round8(n as nat),
            None => n + 7 > usize::MAX,
        },
{
    match n.checked_add(7) {
        Some(v) => Some(v / 8 * 8),
        None => None,
    }
}

/// Range of `length` bytes from `offset` on.
pub fn span(offset: usize, length: usize) -> (range: std::ops::Range<usize>)
    requires
        offset + length <= usize::MAX,
    ensures
        range.start == offset,
        range.end == offset + length,
{
    offset..offset + length
}

/// Padding leads to the next multiple of eight.
proof fn padding_rounds(n: nat)
    ensures
        n + padding(n, 8).len() == round8(n),
        padding(n, 8).len() < 8,
{
    let rest = n % 8;
    let gap = (8 - rest) % 8;
    if rest == 0 {
        assert(gap == 0);
        assert((n + 7) / 8 == n / 8);
    } else {
        assert(gap == 8 - rest);
        assert((n + 7) / 8 == n / 8 + 1);
    }
    assert(padding(n, 8).len() == gap);
}

/// The lengths of the parts of a frame.
proof fn frame_lengths(f: FrameView)
    ensures
        fields_section(f.endian, raw_of(f.fields)).len() == 4 + fields_payload(
            f.endian,
            raw_of(f.fields),
        ).len(),
        frame_head(f).len() == 16 + fields_payload(f.endian, raw_of(f.fields)).len(),
        frame_head(f).len() + padding(frame_head(f).len(), 8).len() == round8(
            frame_head(f).len(),
        ),
        frame_bytes(f).len() == round8(frame_head(f).len()) + f.body.len(),
{
    reveal(frame_bytes);
    padding_rounds(frame_head(f).len());
}

impl<'a> Frame<'a> {
    /// Writes this frame.
    pub fn encode(&self) -> (out: Vec<u8>)
        requires
            encodable(self@),
        ensures
            out@ == frame_bytes(self@),
    {
        proof {
            frame_lengths(self@);
        }
        let fields_with_len = self.fields.serialize(self.endian);
        let body: &[u8] = match &self.body {
            Cow::Borrowed(b) => b,
            Cow::Owned(v) => v.as_slice(),
        };
        let mut out: Vec<u8> = Vec::new();
        out.push(
            match self.endian {
                Endian::Little => LITTLE_MARK,
                Endian::Big => BIG_MARK,
            },
        );
        out.push(self.kind.to_byte());
        out.push(self.flags);
        out.push(1);
        proof {
            assert(out@ =~= frame_start(self@));
        }
        append(&mut out, &endian_u32(self.endian, (body.len() as u64 % 0x1_0000_0000) as u32));
        append(&mut out, &endian_u32(self.endian, self.serial));
        append(&mut out, &fields_with_len);
        let ghost head = frame_head(self@);
        proof {
            assert(out@ =~= head);
        }
        while out.len() % 8 != 0
            invariant
                head.len() <= out@.len() <= head.len() + padding(head.len(), 8).len(),
                out@ == head + padding(head.len(), 8).take(out@.len() - head.len()),
            decreases head.len() + padding(head.len(), 8).len() - out@.len(),
        {
            out.push(0);
            assert(out@ =~= head + padding(head.len(), 8).take(out@.len() - head.len()));
        }
        proof {
            assert(out@ =~= head + padding(head.len(), 8));
        }
        append(&mut out, body);
        proof {
            reveal(frame_bytes);
        }
        out
    }
}

/// A result with its value and its error taken by what they stand for.
pub open spec fn outcome<T: View>(r: Result<T, Error>) -> Result<T::V, ErrorView> {
    match r {
        Ok(v) => Ok(v@),
        Err(e) => Err(e@),
    }
}

/// The number in the four bytes of `buf` from `at` on.
pub open spec fn u32_at(endian: Endian, buf: Seq<u8>, at: int) -> u32 {
    u32_value(endian, buf.subrange(at, at + 4))
}

/// The size of the frame that starts `buf`, once it can be told.
pub open spec fn frame_size(buf: Seq<u8>) -> Result<Option<nat>, ErrorView> {
    if buf.len() < FIXED_HEADER_LEN {
        Ok(None)
    } else {
        match endian_of(buf[0]) {
            None => Err(ErrorView::InvalidEndian(buf[0])),
            Some(endian) => if buf[3] != 1 {
                Err(ErrorView::WrongProtocolVersion(buf[3]))
            } else {
                let fields_end = FIXED_HEADER_LEN as nat + u32_at(endian, buf, 12) as nat;
                let total = round8(fields_end) + u32_at(endian, buf, 4) as nat;
                if fields_end + 7 > usize::MAX || total > usize::MAX {
                    Err(ErrorView::SizeOverflow)
                } else if total > MAX_MESSAGE_SIZE {
                    Err(ErrorView::MessageTooLarge(total))
                } else {
                    Ok(Some(total))
                }
            },
        }
    }
}

/// What stands in front of the header fields.
#[derive(Debug, Clone, Copy, PartialEq, Eq, Structural)]
pub struct Prefix {
    pub endian: Endian,
    pub kind: Kind,
    pub flags: u8,
    pub serial: u32,
    pub body_len: u32,
    /// The offset behind the header fields.
    pub fields_end: usize,
}

/// The prefix of the frame that starts `buf`, where the header fields are there
/// in full.
pub open spec fn prefix_of(buf: Seq<u8>) -> Result<Prefix, ErrorView> {
    if buf.len() < FIXED_HEADER_LEN {
        Err(ErrorView::TooShort)
    } else {
        match endian_of(buf[0]) {
            None => Err(ErrorView::InvalidEndian(buf[0])),
            Some(endian) => if buf[3] != 1 {
                Err(ErrorView::WrongProtocolVersion(buf[3]))
            } else {
                match kind_of(buf[1]) {
                    None => Err(ErrorView::InvalidKind(buf[1])),
                    Some(kind) => {
                        let fields_end = FIXED_HEADER_LEN + u32_at(endian, buf, 12);
                        if u32_at(endian, buf, 8) == 0 {
                            Err(ErrorView::ZeroSerial)
                        } else if fields_end > usize::MAX {
                            Err(ErrorView::SizeOverflow)
                        } else if buf.len() < fields_end {
                            Err(ErrorView::TooShort)
                        } else {
                            Ok(
                                Prefix {
                                    endian,
                                    kind,
                                    flags: buf[2],
                                    serial: u32_at(endian, buf, 8),
                                    body_len: u32_at(endian, buf, 4),
                                    fields_end: fields_end as usize,
                                },
                            )
                        }
                    },
                }
            },
        }
    }
}

/// The frame that starts `buf`, given its prefix and what was read from its
/// header fields.
pub open spec fn frame_of(
    buf: Seq<u8>,
    prefix: Prefix,
    decoded: Result<Seq<RawFieldView>, Seq<char>>,
) -> Result<FrameView, ErrorView> {
    match decoded {
        Err(why) => Err(ErrorView::HeaderFieldsParse(why)),
        Ok(raw) => {
            let body_start = round8(prefix.fields_end as nat);
            let body_end = body_start + prefix.body_len;
            if prefix.fields_end + 7 > usize::MAX || body_end > usize::MAX {
                Err(ErrorView::SizeOverflow)
            } else if buf.len() < body_end {
                Err(ErrorView::TooShort)
            } else {
                Ok(
                    FrameView {
                        endian: prefix.endian,
                        kind: prefix.kind,
                        flags: prefix.flags,
                        serial: prefix.serial,
                        fields: fields_of(raw),
                        body: buf.subrange(body_start as int, body_end as int),
                    },
                )
            }
        },
    }
}

/// The frame that starts `buf`, or why none does.
pub open spec fn parsed(buf: Seq<u8>) -> Result<FrameView, ErrorView> {
    match prefix_of(buf) {
        Err(e) => Err(e),
        Ok(prefix) => frame_of(
            buf,
            prefix,
            fields_decoding(prefix.endian, buf.subrange(12, prefix.fields_end as int)),
        ),
    }
}

/// What was read from header fields.
pub open spec fn decoded_view(decoded: Result<Vec<RawField>, String>) -> Result<
    Seq<RawFieldView>,
    Seq<char>,
> {
    match decoded {
        Ok(raw) => Ok(raw_views(raw@)),
        Err(why) => Err(why@),
    }
}

impl Prefix {
    /// Reads what stands in front of the header fields of the frame that
    /// starts `buf`.
    pub fn read(buf: &[u8]) -> (prefix: Result<Prefix, Error>)
        ensures
            match prefix {
                Ok(p) => prefix_of(buf@) == Ok::<Prefix, ErrorView>(p),
                Err(e) => prefix_of(buf@) == Err::<Prefix, ErrorView>(e@),
            },
    {
        if buf.len() < FIXED_HEADER_LEN {
            return Err(Error::TooShort);
        }
        let endian = parse_endian(buf[0])?;
        if buf[3] != 1 {
            return Err(Error::WrongProtocolVersion(buf[3]));
        }
        let kind = Kind::from_byte(buf[1])?;
        let flags: u8 = buf[2];
        let body_len: u32 = read_u32(endian, buf, 4);
        let serial: u32 = read_u32(endian, buf, 8);
        if serial == 0 {
            return Err(Error::ZeroSerial);
        }
        let fields_len: usize = read_u32(endian, buf, 12) as usize;
        let fields_end: usize = match FIXED_HEADER_LEN.checked_add(fields_len) {
            Some(end) => end,
            None => {
                return Err(Error::SizeOverflow);
            },
        };
        if buf.len() < fields_end {
            return Err(Error::TooShort);
        }
        Ok(Prefix { endian, kind, flags, serial, body_len, fields_end })
    }
}

impl<'a> Frame<'a> {
    /// How many bytes does the frame that starts `buf` take?
    ///
    /// - `Ok(None)` where `buf` is shorter than [`FIXED_HEADER_LEN`].
    /// - `Ok(Some(n))` where the size is known; it may exceed `buf.len()`.
    /// - `Err` on a malformed prefix.
    pub fn bytes_needed(buf: &[u8]) -> (size: Result<Option<usize>, Error>)
        ensures
            match size {
                Ok(Some(n)) => frame_size(buf@) == Ok::<Option<nat>, ErrorView>(Some(n as nat)),
                Ok(None) => frame_size(buf@) == Ok::<Option<nat>, ErrorView>(None),
                Err(e) => frame_size(buf@) == Err::<Option<nat>, ErrorView>(e@),
            },
    {
        if buf.len() < FIXED_HEADER_LEN {
            return Ok(None);
        }
        let endian = parse_endian(buf[0])?;
        if buf[3] != 1 {
            return Err(Error::WrongProtocolVersion(buf[3]));
        }
        let body_len: usize = read_u32(endian, buf, 4) as usize;
        let fields_len: usize = read_u32(endian, buf, 12) as usize;
        let header_section: usize = match FIXED_HEADER_LEN.checked_add(fields_len) {
            Some(end) => end,
            None => {
                return Err(Error::SizeOverflow);
            },
        };
        let body_start: usize = match align8(header_section) {
            Some(start) => start,
            None => {
                return Err(Error::SizeOverflow);
            },
        };
        let total: usize = match body_start.checked_add(body_len) {
            Some(total) => total,
            None => {
                return Err(Error::SizeOverflow);
            },
        };
        if total > MAX_MESSAGE_SIZE {
            return Err(Error::MessageTooLarge(total));
        }
        Ok(Some(total))
    }

    /// The frame that starts `buf`, given its prefix and what was read from
    /// its header fields. Its body is borrowed from `buf`.
    pub fn from_parts(
        buf: &'a [u8],
        prefix: Prefix,
        decoded: Result<Vec<RawField>, String>,
    ) -> (frame: Result<Frame<'a>, Error>)
        ensures
            outcome(frame) == frame_of(buf@, prefix, decoded_view(decoded)),
            frame matches Ok(f) ==> f.body is Borrowed,
    {
        let raw = match decoded {
            Ok(raw) => raw,
            Err(why) => {
                return Err(Error::HeaderFieldsParse(why));
            },
        };
        let fields = Fields::from_raw(raw);
        let body_start: usize = match align8(prefix.fields_end) {
            Some(start) => start,
            None => {
                return Err(Error::SizeOverflow);
            },
        };
        let body_end: usize = match body_start.checked_add(prefix.body_len as usize) {
            Some(end) => end,
            None => {
                return Err(Error::SizeOverflow);
            },
        };
        if buf.len() < body_end {
            return Err(Error::TooShort);
        }
        Ok(
            Frame {
                endian: prefix.endian,
                kind: prefix.kind,
                flags: prefix.flags,
                serial: prefix.serial,
                fields,
                body: Cow::Borrowed(vstd::slice::slice_subrange(buf, body_start, body_end)),
            },
        )
    }
}

/// Whether a frame is read back from the bytes that are written for it.
pub open spec fn decodable(f: FrameView) -> bool {
    &&& readable(raw_of(f.fields))
    &&& fields_payload(f.endian, raw_of(f.fields)).len() <= u32::MAX
    &&& f.body.len() <= u32::MAX
    &&& f.serial != 0
}

/// `f` as it is written: without a path that is not a valid object path.
pub open spec fn as_written(f: FrameView) -> FrameView {
    FrameView { fields: kept_fields(f.fields), ..f }
}

/// Where the parts of a concatenation stand in a buffer that it starts.
proof fn parts_in(
    start: Seq<u8>,
    size: Seq<u8>,
    serial: Seq<u8>,
    section: Seq<u8>,
    pad: Seq<u8>,
    body: Seq<u8>,
    buf: Seq<u8>,
)
    requires
        start.len() == 4,
        size.len() == 4,
        serial.len() == 4,
        (start + size + serial + section + pad + body).is_prefix_of(buf),
    ensures
        buf.subrange(0, 4) == start,
        buf.subrange(4, 8) == size,
        buf.subrange(8, 12) == serial,
        buf.subrange(12, (12 + section.len()) as int) == section,
        ({
            let at = 12 + section.len() + pad.len();
            &&& buf.len() >= at + body.len()
            &&& buf.subrange(at as int, (at + body.len()) as int) == body
        }),
{
    let all = start + size + serial + section + pad + body;
    assert(all =~= buf.subrange(0, all.len() as int));
    assert(buf.subrange(0, 4) =~= all.subrange(0, 4));
    assert(buf.subrange(4, 8) =~= all.subrange(4, 8));
    assert(buf.subrange(8, 12) =~= all.subrange(8, 12));
    assert(buf.subrange(12, (12 + section.len()) as int) =~= all.subrange(
        12,
        (12 + section.len()) as int,
    ));
    let at = 12 + section.len() + pad.len();
    assert(buf.subrange(at as int, (at + body.len()) as int) =~= all.subrange(
        at as int,
        (at + body.len()) as int,
    ));
    assert(all.subrange(0, 4) =~= start);
    assert(all.subrange(4, 8) =~= size);
    assert(all.subrange(8, 12) =~= serial);
    assert(all.subrange(12, (12 + section.len()) as int) =~= section);
    assert(all.subrange(at as int, (at + body.len()) as int) =~= body);
}

/// Where the parts of a written frame stand.
proof fn written_parts(f: FrameView, buf: Seq<u8>)
    requires
        frame_bytes(f).is_prefix_of(buf),
        fields_payload(f.endian, raw_of(f.fields)).len() <= u32::MAX,
        f.body.len() <= u32::MAX,
    ensures
        ({
            let payload = fields_payload(f.endian, raw_of(f.fields));
            let start = round8(16 + payload.len());
            &&& buf.len() >= start + f.body.len()
            &&& buf[0] == endian_byte(f.endian)
            &&& buf[1] == kind_byte(f.kind)
            &&& buf[2] == f.flags
            &&& buf[3] == 1
            &&& u32_at(f.endian, buf, 4) == f.body.len()
            &&& u32_at(f.endian, buf, 8) == f.serial
            &&& u32_at(f.endian, buf, 12) == payload.len()
            &&& buf.subrange(12, (16 + payload.len()) as int) == fields_section(f.endian, raw_of(f.fields))
            &&& buf.subrange(start as int, (start + f.body.len()) as int) == f.body
        }),
{
    frame_lengths(f);
    let payload = fields_payload(f.endian, raw_of(f.fields));
    let section = fields_section(f.endian, raw_of(f.fields));
    let body_len = u32_bytes(f.endian, f.body.len() as u32);
    let serial = u32_bytes(f.endian, f.serial);
    let fields_len = u32_bytes(f.endian, payload.len() as u32);
    u32_bytes_round_trip(f.endian, f.body.len() as u32, body_len);
    u32_bytes_round_trip(f.endian, f.serial, serial);
    u32_bytes_round_trip(f.endian, payload.len() as u32, fields_len);
    let pad = padding(frame_head(f).len(), 8);
    assert(frame_bytes(f) == frame_start(f) + body_len + serial + section + pad + f.body) by {
        reveal(frame_bytes);
    }
    parts_in(frame_start(f), body_len, serial, section, pad, f.body, buf);
    assert(buf[0] == buf.subrange(0, 4)[0]);
    assert(buf[1] == buf.subrange(0, 4)[1]);
    assert(buf[2] == buf.subrange(0, 4)[2]);
    assert(buf[3] == buf.subrange(0, 4)[3]);
    assert(section.subrange(0, 4) =~= fields_len);
    assert(buf.subrange(12, 16) =~= section.subrange(0, 4)) by {
        assert(buf.subrange(12, (12 + section.len()) as int).subrange(0, 4) =~= buf.subrange(12, 16));
    }
}

/// The prefix of a written frame.
pub open spec fn written_prefix(f: FrameView) -> Prefix {
    Prefix {
        endian: f.endian,
        kind: f.kind,
        flags: f.flags,
        serial: f.serial,
        body_len: f.body.len() as u32,
        fields_end: (16 + fields_payload(f.endian, raw_of(f.fields)).len()) as usize,
    }
}

/// The prefix of a written frame is read from its bytes, whatever follows them.
proof fn prefix_of_written(f: FrameView, buf: Seq<u8>)
    requires
        frame_bytes(f).is_prefix_of(buf),
        decodable(f),
        buf.len() <= usize::MAX,
    ensures
        prefix_of(buf) == Ok::<Prefix, ErrorView>(written_prefix(f)),
        written_prefix(f).fields_end == 16 + fields_payload(f.endian, raw_of(f.fields)).len(),
        written_prefix(f).fields_end <= buf.len(),
        buf.subrange(12, written_prefix(f).fields_end as int) == fields_section(
            f.endian,
            raw_of(f.fields),
        ),
{
    frame_lengths(f);
    written_parts(f, buf);
}

/// A written frame is read from its bytes, whatever follows them, once its
/// header fields have been read back.
proof fn frame_of_written(f: FrameView, buf: Seq<u8>)
    requires
        frame_bytes(f).is_prefix_of(buf),
        decodable(f),
        buf.len() <= usize::MAX,
    ensures
        frame_of(buf, written_prefix(f), Ok(raw_of(f.fields))) == Ok::<FrameView, ErrorView>(
            as_written(f),
        ),
{
    frame_lengths(f);
    written_parts(f, buf);
    let end = 16 + fields_payload(f.endian, raw_of(f.fields)).len();
    let start = round8(end) as int;
    let prefix = written_prefix(f);
    assert(round8(end) <= buf.len());
    assert(end + 7 <= usize::MAX);
    assert(prefix.fields_end == end);
    let got = FrameView {
        endian: f.endian,
        kind: f.kind,
        flags: f.flags,
        serial: f.serial,
        fields: fields_of(raw_of(f.fields)),
        body: buf.subrange(start, start + f.body.len()),
    };
    assert(frame_of(buf, prefix, Ok(raw_of(f.fields))) == Ok::<FrameView, ErrorView>(got));
    fields_round_trip(f.fields);
}

/// The size that a written frame announces is its length: whatever follows the
/// frame, and as soon as its fixed header is there.
pub proof fn frame_size_of_written(f: FrameView, buf: Seq<u8>)
    requires
        frame_bytes(f).is_prefix_of(buf),
        fields_payload(f.endian, raw_of(f.fields)).len() <= u32::MAX,
        frame_bytes(f).len() <= MAX_MESSAGE_SIZE,
    ensures
        frame_size(buf) == Ok::<Option<nat>, ErrorView>(Some(frame_bytes(f).len())),
        frame_size(buf.take(FIXED_HEADER_LEN as int)) == frame_size(buf),
{
    frame_lengths(f);
    written_parts(f, buf);
    frame_size_local(buf.take(FIXED_HEADER_LEN as int), buf.skip(FIXED_HEADER_LEN as int));
    assert(buf.take(FIXED_HEADER_LEN as int) + buf.skip(FIXED_HEADER_LEN as int) =~= buf);
}

/// Bytes behind the fixed header do not change the announced size.
pub proof fn frame_size_local(buf: Seq<u8>, more: Seq<u8>)
    requires
        buf.len() >= FIXED_HEADER_LEN,
    ensures
        frame_size(buf + more) == frame_size(buf),
{
    assert((buf + more).subrange(4, 8) =~= buf.subrange(4, 8));
    assert((buf + more).subrange(12, 16) =~= buf.subrange(12, 16));
}

/// A frame starts with its fixed header, and its size is that of the parts
/// that the header announces.
pub proof fn frame_size_bounds(buf: Seq<u8>)
    ensures
        frame_size(buf) matches Ok(Some(n)) ==> FIXED_HEADER_LEN <= n <= MAX_MESSAGE_SIZE,
{
}

/// Bytes behind a complete frame do not change what is read.
pub proof fn parsed_local(buf: Seq<u8>, more: Seq<u8>)
    requires
        parsed(buf) is Ok,
    ensures
        parsed(buf + more) == parsed(buf),
{
    let prefix = prefix_of(buf)->Ok_0;
    let all = buf + more;
    assert(all.subrange(4, 8) =~= buf.subrange(4, 8));
    assert(all.subrange(8, 12) =~= buf.subrange(8, 12));
    assert(all.subrange(12, 16) =~= buf.subrange(12, 16));
    assert(prefix_of(all) == prefix_of(buf));
    assert(all.subrange(12, prefix.fields_end as int) =~= buf.subrange(
        12,
        prefix.fields_end as int,
    ));
    let start = round8(prefix.fields_end as nat) as int;
    assert(all.subrange(start, start + prefix.body_len) =~= buf.subrange(
        start,
        start + prefix.body_len,
    ));
}

impl<'a> Frame<'a> {
    /// Parses the frame that starts `buf` and borrows its body from there.
    ///
    /// What [`Frame::encode`] wrote is read back, whatever follows it.
    pub fn parse(buf: &'a [u8]) -> (frame: Result<Frame<'a>, Error>)
        ensures
            outcome(frame) == parsed(buf@),
            frame matches Ok(f) ==> f.body is Borrowed,
            forall|f: FrameView|
                decodable(f) && (#[trigger] frame_bytes(f)).is_prefix_of(buf@) ==> outcome(frame)
                    == Ok::<FrameView, ErrorView>(as_written(f)),
    {
        assert(buf@.len() == buf.len());
        let prefix = match Prefix::read(buf) {
            Ok(prefix) => prefix,
            Err(e) => {
                proof {
                    assert forall|f: FrameView|
                        decodable(f) && (#[trigger] frame_bytes(f)).is_prefix_of(buf@) implies false by {
                        prefix_of_written(f, buf@);
                    }
                }
                return Err(e);
            },
        };
        // The slice starts at the length of the array, so that the fields stand
        // at the same offsets as in the message.
        let section = vstd::slice::slice_subrange(buf, 12, prefix.fields_end);
        let decoded = decode_fields(prefix.endian, section);
        proof {
            assert forall|f: FrameView|
                decodable(f) && (#[trigger] frame_bytes(f)).is_prefix_of(buf@) implies frame_of(
                buf@,
                prefix,
                decoded_view(decoded),
            ) == Ok::<FrameView, ErrorView>(as_written(f)) by {
                prefix_of_written(f, buf@);
                frame_of_written(f, buf@);
            }
        }
        Frame::from_parts(buf, prefix, decoded)
    }
}

// ---------------------------------------------------------------------------
// Bodies
// ---------------------------------------------------------------------------
/// The arguments that are read from the body of `f`.
pub open spec fn args_of(f: FrameView) -> Option<Seq<ArgView>> {
    match f.fields.signature {
        None => None,
        Some(signature) => args_in(f.endian, signature, f.body),
    }
}

/// The body of a message grows by one argument at a time.
pub proof fn body_grows(endian: Endian, args: Seq<ArgView>, arg: ArgView)
    ensures
        body_bytes(endian, args.push(arg)) == body_bytes(endian, args) + arg_bytes(
            endian,
            body_bytes(endian, args).len(),
            arg,
        ),
        body_signature(args.push(arg)) == body_signature(args) + arg_code(arg),
{
    assert(args.push(arg).drop_last() =~= args);
}

impl<'a> Frame<'a> {
    /// Reads the arguments of the body by the signature in the header fields.
    /// `None` where there is no signature, or where the body does not fit it. A
    /// body with a value of a type that has no [`Arg`] of its own is handed out
    /// as a whole, encoded.
    ///
    /// Arguments that were written with [`Args`] are read back.
    pub fn decode_body(&self) -> (args: Option<Vec<Arg>>)
        ensures
            args_view(args) == args_of(self@),
            args matches Some(a) ==> of_types(arg_views(a@), self@.fields.signature->Some_0),
            forall|written: Seq<ArgView>|
                readable_args(written) && fits_args(self@.endian, written)
                    && self@.fields.signature == Some(body_signature(written)) && self@.body
                    == #[trigger] body_bytes(self@.endian, written) ==> args_view(args) == Some(
                    written,
                ),
    {
        let signature = match &self.fields.signature {
            Some(s) => s,
            None => {
                return None;
            },
        };
        let body: &[u8] = match &self.body {
            Cow::Borrowed(b) => b,
            Cow::Owned(v) => v.as_slice(),
        };
        decode_by_signature(self.endian, signature, body)
    }
}

// ---------------------------------------------------------------------------
// Building frames
// ---------------------------------------------------------------------------
/// Frame builder. Builds little-endian frames.
#[derive(Debug)]
pub struct Builder {
    kind: Kind,
    serial: u32,
    flags: u8,
    fields: Fields,
    body: Vec<u8>,
}

impl View for Builder {
    type V = FrameView;

    /// The frame that would be built.
    closed spec fn view(&self) -> FrameView {
        FrameView {
            endian: Endian::Little,
            kind: self.kind,
            flags: self.flags,
            serial: self.serial,
            fields: self.fields@,
            body: self.body@,
        }
    }
}

/// An empty frame of a kind.
pub open spec fn empty_frame(kind: Kind) -> FrameView {
    FrameView {
        endian: Endian::Little,
        kind,
        flags: 0,
        serial: 0,
        fields: no_fields(),
        body: seq![],
    }
}

/// An empty frame that answers `request`: it names the request's serial and
/// goes back where the request came from.
pub open spec fn answer_to(kind: Kind, request: FrameView) -> FrameView {
    FrameView {
        fields: FieldsView {
            reply_serial: Some(request.serial),
            destination: request.fields.sender,
            sender: request.fields.destination,
            ..no_fields()
        },
        ..empty_frame(kind)
    }
}

impl Builder {
    /// Starts an empty frame.
    pub fn new(kind: Kind) -> (b: Builder)
        ensures
            b@ == empty_frame(kind),
    {
        let b = Builder { kind, serial: 0, flags: 0, fields: Fields::default(), body: Vec::new() };
        assert(b.body@ =~= seq![]);
        b
    }

    fn fill_from_request(self, request: &Frame<'_>) -> (b: Builder)
        ensures
            b@ == (FrameView {
                fields: FieldsView {
                    reply_serial: Some(request@.serial),
                    destination: request@.fields.sender,
                    sender: request@.fields.destination,
                    ..self@.fields
                },
                ..self@
            }),
    {
        let mut b = self;
        b.fields.reply_serial = Some(request.serial);
        b.fields.destination = copy_text(&request.fields.sender);
        b.fields.sender = copy_text(&request.fields.destination);
        b
    }

    /// Sets the serial.
    pub fn serial(self, n: u32) -> (b: Builder)
        ensures
            b@ == (FrameView { serial: n, ..self@ }),
    {
        let mut b = self;
        b.serial = n;
        b
    }

    /// Sets the flags.
    pub fn flags(self, flags: u8) -> (b: Builder)
        ensures
            b@ == (FrameView { flags, ..self@ }),
    {
        let mut b = self;
        b.flags = flags;
        b
    }

    /// Sets the destination.
    pub fn destination(self, s: &str) -> (b: Builder)
        ensures
            b@ == (FrameView {
                fields: FieldsView { destination: Some(s@), ..self@.fields },
                ..self@
            }),
    {
        let mut b = self;
        b.fields.destination = Some(s.to_owned());
        b
    }

    /// Sets the sender.
    pub fn sender(self, s: &str) -> (b: Builder)
        ensures
            b@ == (FrameView {
                fields: FieldsView { sender: Some(s@), ..self@.fields },
                ..self@
            }),
    {
        let mut b = self;
        b.fields.sender = Some(s.to_owned());
        b
    }

    /// Clears the destination that [`Frame::method_return`] or
    /// [`Frame::error`] has set.
    pub fn no_destination(self) -> (b: Builder)
        ensures
            b@ == (FrameView {
                fields: FieldsView { destination: None, ..self@.fields },
                ..self@
            }),
    {
        let mut b = self;
        b.fields.destination = None;
        b
    }

    /// Makes the body a single argument.
    pub fn body(self, value: &Arg) -> (b: Builder)
        requires
            fits_arg(0, value@),
        ensures
            b@ == (FrameView {
                fields: FieldsView { signature: Some(arg_code(value@)), ..self@.fields },
                body: arg_bytes(Endian::Little, 0, value@),
                ..self@
            }),
    {
        let mut b = self;
        b.body = write_arg(0, value);
        b.fields.signature = Some(value.code().to_owned());
        b
    }

    /// Starts a body of several arguments. Its signature is that of the
    /// arguments in a row, not a struct.
    pub fn body_args(self) -> (a: Args)
        ensures
            a.builder() == self@,
            a.signature() == Seq::<char>::empty(),
    {
        let a = Args { inner: self, sig: String::new() };
        assert(a.sig@ =~= Seq::<char>::empty());
        a
    }

    /// The frame, which owns its body.
    pub fn build(self) -> (frame: Frame<'static>)
        ensures
            frame@ == self@,
            frame.body is Owned,
    {
        Frame {
            endian: Endian::Little,
            kind: self.kind,
            flags: self.flags,
            serial: self.serial,
            fields: self.fields,
            body: Cow::Owned(self.body),
        }
    }
}

/// Builder of a body of several arguments; see [`Builder::body_args`].
#[derive(Debug)]
pub struct Args {
    inner: Builder,
    sig: String,
}

impl Args {
    /// The frame as far as it has been built.
    pub closed spec fn builder(&self) -> FrameView {
        self.inner@
    }

    /// The signature of the arguments so far.
    pub closed spec fn signature(&self) -> Seq<char> {
        self.sig@
    }

    /// Where the next argument goes in the body.
    pub fn offset(&self) -> (at: usize)
        ensures
            at == self.builder().body.len(),
    {
        self.inner.body.len()
    }

    /// Appends an argument, aligned for its place in the body.
    pub fn arg(self, value: &Arg) -> (a: Args)
        requires
            fits_arg(self.builder().body.len(), value@),
        ensures
            a.builder() == (FrameView {
                body: self.builder().body + arg_bytes(
                    Endian::Little,
                    self.builder().body.len(),
                    value@,
                ),
                ..self.builder()
            }),
            a.signature() == self.signature() + arg_code(value@),
    {
        let mut a = self;
        let at: usize = a.inner.body.len();
        append(&mut a.inner.body, &write_arg(at, value));
        push_text(&mut a.sig, value.code());
        a
    }

    /// Ends the body. A body without arguments has no signature.
    pub fn done(self) -> (b: Builder)
        ensures
            b@ == if self.signature().len() == 0 {
                self.builder()
            } else {
                FrameView {
                    fields: FieldsView {
                        signature: Some(self.signature()),
                        ..self.builder().fields
                    },
                    ..self.builder()
                }
            },
    {
        let mut b = self.inner;
        if !same_text(&self.sig, "") {
            proof {
                reveal_strlit("");
                if self.sig@.len() == 0 {
                    assert(self.sig@ =~= ""@);
                }
            }
            b.fields.signature = Some(self.sig);
        } else {
            proof {
                reveal_strlit("");
            }
        }
        b
    }
}

impl<'a> Frame<'a> {
    /// Makes the body a copy of its own, where it was borrowed.
    pub fn into_owned(self) -> (frame: Frame<'static>)
        ensures
            frame@ == self@,
            frame.body is Owned,
    {
        Frame {
            endian: self.endian,
            kind: self.kind,
            flags: self.flags,
            serial: self.serial,
            fields: self.fields,
            body: Cow::Owned(
                match self.body {
                    Cow::Borrowed(b) => copy_range(b, 0, b.len()),
                    Cow::Owned(v) => v,
                },
            ),
        }
    }

    /// Starts a reply to `reply_to`.
    pub fn method_return(reply_to: &Frame<'_>) -> (b: Builder)
        ensures
            b@ == answer_to(Kind::MethodReturn, reply_to@),
    {
        Builder::new(Kind::MethodReturn).fill_from_request(reply_to)
    }

    /// Starts a signal.
    pub fn signal(path: &str, interface: &str, member: &str) -> (b: Builder)
        ensures
            b@ == (FrameView {
                fields: FieldsView {
                    path: Some(path@),
                    interface: Some(interface@),
                    member: Some(member@),
                    ..no_fields()
                },
                ..empty_frame(Kind::Signal)
            }),
    {
        let mut b = Builder::new(Kind::Signal);
        b.fields.path = Some(path.to_owned());
        b.fields.interface = Some(interface.to_owned());
        b.fields.member = Some(member.to_owned());
        b
    }

    /// Starts an error reply to `reply_to`.
    pub fn error(reply_to: &Frame<'_>, error_name: &str) -> (b: Builder)
        ensures
            b@ == (FrameView {
                fields: FieldsView {
                    error_name: Some(error_name@),
                    ..answer_to(Kind::Error, reply_to@).fields
                },
                ..empty_frame(Kind::Error)
            }),
    {
        let mut b = Builder::new(Kind::Error).fill_from_request(reply_to);
        b.fields.error_name = Some(error_name.to_owned());
        b
    }
}

} // verus!
