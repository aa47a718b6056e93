//! Message headers as the broker observes them.

use vstd::prelude::*;

use super::fields::{copy_text, text_of, FieldsView};
use super::frame::{
    as_written, decodable, frame_bytes, frame_size, outcome, parsed, ErrorView, Frame, FrameView,
};

pub use super::endian::Endian;
pub use super::frame::Error as MessageError;
pub use super::frame::Kind as MessageType;

verus! {

/// Everything of a message but its body.
#[derive(Debug, PartialEq, Eq)]
pub struct Header {
    pub endian: Endian,
    pub msg_type: MessageType,
    pub flags: u8,
    pub body_len: usize,
    pub serial: u32,
    pub path: Option<String>,
    pub interface: Option<String>,
    pub member: Option<String>,
    pub error_name: Option<String>,
    pub destination: Option<String>,
    pub sender: Option<String>,
    pub signature: Option<String>,
    pub reply_serial: Option<u32>,
    pub unix_fds: Option<u32>,
}

/// What a [`Header`] stands for.
#[verifier::ext_equal]
pub struct HeaderView {
    pub endian: Endian,
    pub msg_type: MessageType,
    pub flags: u8,
    pub body_len: nat,
    pub serial: u32,
    pub fields: FieldsView,
}

impl View for Header {
    type V = HeaderView;

    open spec fn view(&self) -> HeaderView {
        HeaderView {
            endian: self.endian,
            msg_type: self.msg_type,
            flags: self.flags,
            body_len: self.body_len as nat,
            serial: self.serial,
            fields: FieldsView {
                path: text_of(self.path),
                interface: text_of(self.interface),
                member: text_of(self.member),
                error_name: text_of(self.error_name),
                destination: text_of(self.destination),
                sender: text_of(self.sender),
                signature: text_of(self.signature),
                reply_serial: self.reply_serial,
                unix_fds: self.unix_fds,
            },
        }
    }
}

impl Clone for Header {
    fn clone(&self) -> (copy: Header)
        ensures
            copy@ == self@,
    {
        Header {
            endian: self.endian,
            msg_type: self.msg_type,
            flags: self.flags,
            body_len: self.body_len,
            serial: self.serial,
            path: copy_text(&self.path),
            interface: copy_text(&self.interface),
            member: copy_text(&self.member),
            error_name: copy_text(&self.error_name),
            destination: copy_text(&self.destination),
            sender: copy_text(&self.sender),
            signature: copy_text(&self.signature),
            reply_serial: self.reply_serial,
            unix_fds: self.unix_fds,
        }
    }
}

/// The header of a frame.
pub open spec fn header_of(f: FrameView) -> HeaderView {
    HeaderView {
        endian: f.endian,
        msg_type: f.kind,
        flags: f.flags,
        body_len: f.body.len(),
        serial: f.serial,
        fields: f.fields,
    }
}

/// The header of the message that starts `buf`, or why none does.
pub open spec fn parsed_header(buf: Seq<u8>) -> Result<HeaderView, ErrorView> {
    match parsed(buf) {
        Ok(f) => Ok(header_of(f)),
        Err(e) => Err(e),
    }
}

impl Header {
    /// The header of a frame.
    pub fn of(frame: Frame<'_>) -> (header: Header)
        ensures
            header@ == header_of(frame@),
    {
        let body_len: usize = match &frame.body {
            std::borrow::Cow::Borrowed(b) => b.len(),
            std::borrow::Cow::Owned(v) => v.len(),
        };
        let fields = frame.fields;
        Header {
            endian: frame.endian,
            msg_type: frame.kind,
            flags: frame.flags,
            body_len,
            serial: frame.serial,
            path: fields.path,
            interface: fields.interface,
            member: fields.member,
            error_name: fields.error_name,
            destination: fields.destination,
            sender: fields.sender,
            signature: fields.signature,
            reply_serial: fields.reply_serial,
            unix_fds: fields.unix_fds,
        }
    }
}

/// How many bytes does the message that starts `buf` take? See
/// [`Frame::bytes_needed`].
pub fn bytes_needed(buf: &[u8]) -> (size: Result<Option<usize>, MessageError>)
    ensures
        match size {
            Ok(Some(n)) => frame_size(buf@) == Ok::<Option<nat>, ErrorView>(Some(n as nat)),
            Ok(None) => frame_size(buf@) == Ok::<Option<nat>, ErrorView>(None),
            Err(e) => frame_size(buf@) == Err::<Option<nat>, ErrorView>(e@),
        },
{
    Frame::bytes_needed(buf)
}

/// Parses the header of the message that starts `buf`, which has to be there in
/// full.
pub fn parse_header(buf: &[u8]) -> (header: Result<Header, MessageError>)
    ensures
        outcome(header) == parsed_header(buf@),
        forall|f: FrameView|
            decodable(f) && (#[trigger] frame_bytes(f)).is_prefix_of(buf@) ==> outcome(header)
                == Ok::<HeaderView, ErrorView>(header_of(as_written(f))),
{
    match Frame::parse(buf) {
        Ok(frame) => Ok(Header::of(frame)),
        Err(e) => Err(e),
    }
}

} // verus!
