//! What values stand for in contracts: all that they hold.

use vstd::prelude::*;
use vstd::std_specs::convert::FromSpec;

use crate::broker::state::{
    fed_view, observed_views, BrokerError, BrokerErrorView, Output, OutputView,
};
use crate::codec::{read_view, CodecError, CodecErrorView};
use crate::dbus::args::{arg_views, args_view, pair_views, Arg, ArgView};
use crate::dbus::fields::{text_of, Fields};
use crate::dbus::frame::{outcome, Error, ErrorView, Frame, FrameView};
use crate::dbus::marshal::{raw_views, value_view, FieldValue, FieldValueView, RawField};
use crate::dbus::message::{Header, MessageError};
use crate::dbus::sasl::SaslError;
use crate::fcitx::classify::{method_view, FcitxMethod, MethodView};
use crate::state::ime::{ic_name, step_views, ActiveFcitxIc, ImeStep, ImeStepView};

verus! {

/// An optional text stands for the whole of it.
pub proof fn texts_are_whole(s: String)
    ensures
        text_of(Some(s)) == Some(s@),
        text_of(None) is None,
{
}

/// Header fields stand for their texts and numbers, each for its own.
pub proof fn fields_are_whole(f: Fields)
    ensures
        f@.path == text_of(f.path),
        f@.interface == text_of(f.interface),
        f@.member == text_of(f.member),
        f@.error_name == text_of(f.error_name),
        f@.destination == text_of(f.destination),
        f@.sender == text_of(f.sender),
        f@.signature == text_of(f.signature),
        f@.reply_serial == f.reply_serial,
        f@.unix_fds == f.unix_fds,
{
}

/// A frame stands for all of its parts.
pub proof fn frames_are_whole(f: Frame<'_>)
    ensures
        f@.endian == f.endian,
        f@.kind == f.kind,
        f@.flags == f.flags,
        f@.serial == f.serial,
        f@.fields == f.fields@,
        f@.body == f.body@,
{
}

/// An observed header stands for all of its parts.
pub proof fn headers_are_whole(h: Header)
    ensures
        h@.endian == h.endian,
        h@.msg_type == h.msg_type,
        h@.flags == h.flags,
        h@.body_len == h.body_len,
        h@.serial == h.serial,
        h@.fields.path == text_of(h.path),
        h@.fields.interface == text_of(h.interface),
        h@.fields.member == text_of(h.member),
        h@.fields.error_name == text_of(h.error_name),
        h@.fields.destination == text_of(h.destination),
        h@.fields.sender == text_of(h.sender),
        h@.fields.signature == text_of(h.signature),
        h@.fields.reply_serial == h.reply_serial,
        h@.fields.unix_fds == h.unix_fds,
{
}

/// Raw fields stand for their codes and values, in their order.
pub proof fn raw_fields_are_whole(raw: Seq<RawField>, s: String, n: u32, i: int)
    requires
        0 <= i < raw.len(),
    ensures
        raw_views(raw).len() == raw.len(),
        raw_views(raw)[i] == (raw[i].0, value_view(raw[i].1)),
        value_view(Some(FieldValue::ObjectPath(s))) == Some(FieldValueView::ObjectPath(s@)),
        value_view(Some(FieldValue::Str(s))) == Some(FieldValueView::Str(s@)),
        value_view(Some(FieldValue::U32(n))) == Some(FieldValueView::U32(n)),
        value_view(Some(FieldValue::Signature(s))) == Some(FieldValueView::Signature(s@)),
        value_view(None) is None,
{
}

/// Arguments stand for their values, in their order.
pub proof fn arguments_are_whole(args: Vec<Arg>, i: int)
    requires
        0 <= i < args@.len(),
    ensures
        args_view(Some(args)) == Some(arg_views(args@)),
        args_view(None) is None,
        arg_views(args@).len() == args@.len(),
        arg_views(args@)[i] == match args@[i] {
            Arg::U8(n) => ArgView::U8(n),
            Arg::Bool(b) => ArgView::Bool(b),
            Arg::I16(n) => ArgView::I16(n),
            Arg::U16(n) => ArgView::U16(n),
            Arg::I32(n) => ArgView::I32(n),
            Arg::U32(n) => ArgView::U32(n),
            Arg::I64(n) => ArgView::I64(n),
            Arg::U64(n) => ArgView::U64(n),
            Arg::Double(n) => ArgView::Double(n),
            Arg::Str(s) => ArgView::Str(s@),
            Arg::ObjectPath(s) => ArgView::ObjectPath(s@),
            Arg::Bytes(b) => ArgView::Bytes(b@),
            Arg::StrPairs(v) => ArgView::StrPairs(pair_views(v@)),
            Arg::StrI32Pairs(v) => ArgView::StrI32Pairs(
                v@.map_values(|p: (String, i32)| (p.0@, p.1)),
            ),
            Arg::Encoded { code, bytes } => ArgView::Encoded { code: code@, bytes: bytes@ },
        },
{
}

/// Pairs of texts stand for both texts of each, in their order.
pub proof fn pairs_are_whole(pairs: Seq<(String, String)>, i: int)
    requires
        0 <= i < pairs.len(),
    ensures
        pair_views(pairs).len() == pairs.len(),
        pair_views(pairs)[i] == (pairs[i].0@, pairs[i].1@),
{
}

/// A recognised call stands for its path and its arguments, each for its own.
pub proof fn calls_are_whole(m: FcitxMethod)
    ensures
        method_view(Some(m)) == Some(m@),
        method_view(None) is None,
        m matches FcitxMethod::CreateInputContext { hints } ==> m@ == (
        MethodView::CreateInputContext { hints: pair_views(hints@) }),
        m matches FcitxMethod::FocusIn { ic_path } ==> m@ == (MethodView::FocusIn {
            ic_path: ic_path@,
        }),
        m matches FcitxMethod::FocusOut { ic_path } ==> m@ == (MethodView::FocusOut {
            ic_path: ic_path@,
        }),
        m matches FcitxMethod::Reset { ic_path } ==> m@ == (MethodView::Reset {
            ic_path: ic_path@,
        }),
        m matches FcitxMethod::DestroyIC { ic_path } ==> m@ == (MethodView::DestroyIC {
            ic_path: ic_path@,
        }),
        m matches FcitxMethod::SetCapability { ic_path, capability } ==> m@ == (
        MethodView::SetCapability { ic_path: ic_path@, capability }),
        m matches FcitxMethod::SetCursorRect { ic_path, x, y, w, h } ==> m@ == (
        MethodView::SetCursorRect { ic_path: ic_path@, x, y, w, h }),
        m matches FcitxMethod::SetCursorRectV2 { ic_path, x, y, w, h, scale } ==> m@ == (
        MethodView::SetCursorRectV2 { ic_path: ic_path@, x, y, w, h, scale }),
        m matches FcitxMethod::SetCursorLocation { ic_path, x, y } ==> m@ == (
        MethodView::SetCursorLocation { ic_path: ic_path@, x, y }),
        m matches FcitxMethod::SetSurroundingText { ic_path, text, cursor, anchor } ==> m@ == (
        MethodView::SetSurroundingText { ic_path: ic_path@, text: text@, cursor, anchor }),
        m matches FcitxMethod::SetSurroundingTextPosition { ic_path, cursor, anchor } ==> m@ == (
        MethodView::SetSurroundingTextPosition { ic_path: ic_path@, cursor, anchor }),
{
}

/// Steps towards a client stand for their texts and positions, in their order.
pub proof fn steps_are_whole(steps: Seq<ImeStep>, i: int)
    requires
        0 <= i < steps.len(),
    ensures
        step_views(steps).len() == steps.len(),
        step_views(steps)[i] == match steps[i] {
            ImeStep::Enter => ImeStepView::Enter,
            ImeStep::Leave => ImeStepView::Leave,
            ImeStep::PreeditString { text, begin, end } => ImeStepView::PreeditString {
                text: text_of(text),
                begin,
                end,
            },
            ImeStep::CommitString { text } => ImeStepView::CommitString { text: text_of(text) },
            ImeStep::Done => ImeStepView::Done,
        },
{
}

/// The name of a context is its connection and its path.
pub proof fn context_names_are_whole(ic: ActiveFcitxIc)
    ensures
        ic@ == (ic.conn, ic.ic_path@),
        ic_name(Some(ic)) == Some((ic.conn, ic.ic_path@)),
        ic_name(None) is None,
{
}

/// What came of a chunk stands for its bytes and its messages, in their order.
pub proof fn outputs_are_whole(out: Output, i: int)
    ensures
        out@.forward == out.forward@,
        out@.messages == observed_views(out.messages@),
        out@.messages.len() == out.messages@.len(),
        0 <= i < out.messages@.len() ==> out@.messages[i].header == out.messages@[i].header@
            && out@.messages[i].offset == out.messages@[i].offset && out@.messages[i].length
            == out.messages@[i].length,
        fed_view(Ok(out)) == Ok::<OutputView, BrokerErrorView>(out@),
{
}

/// Errors stand for what they say.
pub proof fn errors_are_whole(e: Error, b: BrokerError, c: CodecError, f: Frame<'_>, p: Vec<u8>)
    ensures
        e@ == match e {
            Error::InvalidEndian(b) => ErrorView::InvalidEndian(b),
            Error::InvalidKind(b) => ErrorView::InvalidKind(b),
            Error::WrongProtocolVersion(v) => ErrorView::WrongProtocolVersion(v),
            Error::ZeroSerial => ErrorView::ZeroSerial,
            Error::TooShort => ErrorView::TooShort,
            Error::SizeOverflow => ErrorView::SizeOverflow,
            Error::MessageTooLarge(n) => ErrorView::MessageTooLarge(n as nat),
            Error::HeaderFieldsParse(s) => ErrorView::HeaderFieldsParse(s@),
        },
        outcome::<Frame<'_>>(Ok(f)) == Ok::<FrameView, ErrorView>(f@),
        outcome::<Frame<'_>>(Err(e)) == Err::<FrameView, ErrorView>(e@),
        b@ == match b {
            BrokerError::Sasl(s) => BrokerErrorView::Sasl(s),
            BrokerError::Message(m) => BrokerErrorView::Message(m@),
        },
        fed_view(Err(b)) == Err::<OutputView, BrokerErrorView>(b@),
        c@ == match c {
            CodecError::UnexpectedEof => CodecErrorView::UnexpectedEof,
            CodecError::PayloadTooLarge => CodecErrorView::PayloadTooLarge,
            CodecError::FrameTooLarge => CodecErrorView::FrameTooLarge,
            CodecError::Malformed(why) => CodecErrorView::Malformed(why@),
        },
        read_view(Ok(Some(p))) == Ok::<Option<Seq<u8>>, CodecErrorView>(Some(p@)),
        read_view(Ok(None)) == Ok::<Option<Seq<u8>>, CodecErrorView>(None),
        read_view(Err(c)) == Err::<Option<Seq<u8>>, CodecErrorView>(c@),
{
}

/// An error of a part is that part's error of the whole.
pub proof fn errors_are_taken_over(s: SaslError, m: MessageError)
    ensures
        <BrokerError as FromSpec<SaslError>>::from_spec(s) == BrokerError::Sasl(s),
        <BrokerError as FromSpec<MessageError>>::from_spec(m) == BrokerError::Message(m),
{
}

} // verus!
