//! Header fields of a message.

use vstd::prelude::*;

use super::endian::{endian_u32, Endian};
use super::frame::field_code;
use super::marshal::{
    encode_field, fields_payload, fields_section, is_object_path, raw_views, valid_object_path,
    value_view, writable, FieldValue, FieldValueView, RawField, RawFieldView,
};
use crate::bytes::append;

verus! {

broadcast use super::endian::u32_bytes_len;

/// Header fields, all optional.
///
/// A field that is read with a value of another type than its own is dropped:
/// to reject such traffic is the business of the daemon behind the broker.
#[derive(Debug, PartialEq, Eq)]
pub struct Fields {
    pub path: Option<String>,
    pub interface: Option<String>,
    pub member: Option<String>,
    pub error_name: Option<String>,
    pub destination: Option<String>,
    pub sender: Option<String>,
    pub signature: Option<String>,
    pub reply_serial: Option<u32>,
    pub unix_fds: Option<u32>,
}

/// What [`Fields`] stand for.
#[verifier::ext_equal]
pub struct FieldsView {
    pub path: Option<Seq<char>>,
    pub interface: Option<Seq<char>>,
    pub member: Option<Seq<char>>,
    pub error_name: Option<Seq<char>>,
    pub destination: Option<Seq<char>>,
    pub sender: Option<Seq<char>>,
    pub signature: Option<Seq<char>>,
    pub reply_serial: Option<u32>,
    pub unix_fds: Option<u32>,
}

/// The text of an optional string.
pub open spec fn text_of(s: Option<String>) -> Option<Seq<char>> {
    match s {
        Some(s) => Some(s@),
        None => None,
    }
}

impl View for Fields {
    type V = FieldsView;

    open spec fn view(&self) -> FieldsView {
        FieldsView {
            path: text_of(self.path),
            interface: text_of(self.interface),
            member: text_of(self.member),
            error_name: text_of(self.error_name),
            destination: text_of(self.destination),
            sender: text_of(self.sender),
            signature: text_of(self.signature),
            reply_serial: self.reply_serial,
            unix_fds: self.unix_fds,
        }
    }
}

/// No field at all.
pub open spec fn no_fields() -> FieldsView {
    FieldsView {
        path: None,
        interface: None,
        member: None,
        error_name: None,
        destination: None,
        sender: None,
        signature: None,
        reply_serial: None,
        unix_fds: None,
    }
}

/// The text of a string value.
pub open spec fn as_text(value: Option<FieldValueView>) -> Option<Seq<char>> {
    match value {
        Some(FieldValueView::Str(s)) => Some(s),
        _ => None,
    }
}

/// The number in a numeric value.
pub open spec fn as_number(value: Option<FieldValueView>) -> Option<u32> {
    match value {
        Some(FieldValueView::U32(n)) => Some(n),
        _ => None,
    }
}

/// `fields` after one more raw field has been read.
pub open spec fn with_field(fields: FieldsView, raw: RawFieldView) -> FieldsView {
    let (code, value) = raw;
    if code == field_code::PATH {
        match value {
            Some(FieldValueView::ObjectPath(p)) => FieldsView { path: Some(p), ..fields },
            _ => fields,
        }
    } else if code == field_code::INTERFACE {
        FieldsView { interface: as_text(value), ..fields }
    } else if code == field_code::MEMBER {
        FieldsView { member: as_text(value), ..fields }
    } else if code == field_code::ERROR_NAME {
        FieldsView { error_name: as_text(value), ..fields }
    } else if code == field_code::REPLY_SERIAL {
        FieldsView { reply_serial: as_number(value), ..fields }
    } else if code == field_code::DESTINATION {
        FieldsView { destination: as_text(value), ..fields }
    } else if code == field_code::SENDER {
        FieldsView { sender: as_text(value), ..fields }
    } else if code == field_code::SIGNATURE {
        match value {
            Some(FieldValueView::Signature(s)) => FieldsView { signature: Some(s), ..fields },
            _ => fields,
        }
    } else if code == field_code::UNIX_FDS {
        FieldsView { unix_fds: as_number(value), ..fields }
    } else {
        fields
    }
}

/// The fields that a list of raw fields gives, a later one before an earlier.
pub open spec fn fields_of(raw: Seq<RawFieldView>) -> FieldsView
    decreases raw.len(),
{
    if raw.len() == 0 {
        no_fields()
    } else {
        with_field(fields_of(raw.drop_last()), raw.last())
    }
}

/// The raw field of `code`, where it has a value.
pub open spec fn raw_field(code: u8, value: Option<FieldValueView>) -> Seq<RawFieldView> {
    match value {
        Some(v) => seq![(code, Some(v))],
        None => seq![],
    }
}

/// The value of a text field.
pub open spec fn text_value(text: Option<Seq<char>>) -> Option<FieldValueView> {
    match text {
        Some(s) => Some(FieldValueView::Str(s)),
        None => None,
    }
}

/// The value of a numeric field.
pub open spec fn number_value(number: Option<u32>) -> Option<FieldValueView> {
    match number {
        Some(n) => Some(FieldValueView::U32(n)),
        None => None,
    }
}

/// The value of a path field: none where the path is not a valid one.
pub open spec fn path_value(path: Option<Seq<char>>) -> Option<FieldValueView> {
    match path {
        Some(p) => if is_object_path(p) {
            Some(FieldValueView::ObjectPath(p))
        } else {
            None
        },
        None => None,
    }
}

/// The value of a signature field.
pub open spec fn signature_value(signature: Option<Seq<char>>) -> Option<FieldValueView> {
    match signature {
        Some(s) => Some(FieldValueView::Signature(s)),
        None => None,
    }
}

/// The raw fields that are written for `fields`, in order.
#[verifier::opaque]
pub open spec fn raw_of(fields: FieldsView) -> Seq<RawFieldView> {
    raw_field(field_code::PATH, path_value(fields.path)) + raw_field(
        field_code::INTERFACE,
        text_value(fields.interface),
    ) + raw_field(field_code::MEMBER, text_value(fields.member)) + raw_field(
        field_code::ERROR_NAME,
        text_value(fields.error_name),
    ) + raw_field(field_code::REPLY_SERIAL, number_value(fields.reply_serial)) + raw_field(
        field_code::DESTINATION,
        text_value(fields.destination),
    ) + raw_field(field_code::SENDER, text_value(fields.sender)) + raw_field(
        field_code::SIGNATURE,
        signature_value(fields.signature),
    ) + raw_field(field_code::UNIX_FDS, number_value(fields.unix_fds))
}

/// Appending a field to a raw list.
proof fn fields_of_append(raw: Seq<RawFieldView>, code: u8, value: Option<FieldValueView>)
    ensures
        fields_of(raw + raw_field(code, value)) == match value {
            Some(v) => with_field(fields_of(raw), (code, Some(v))),
            None => fields_of(raw),
        },
{
    let all = raw + raw_field(code, value);
    if value is Some {
        assert(all.drop_last() =~= raw);
    } else {
        assert(all =~= raw);
    }
}

/// `fields` without a path that is not a valid object path.
pub open spec fn kept_fields(fields: FieldsView) -> FieldsView {
    match fields.path {
        Some(p) => if is_object_path(p) {
            fields
        } else {
            FieldsView { path: None, ..fields }
        },
        None => fields,
    }
}

/// Fields are read back from the raw fields that are written for them; only a
/// path that is not a valid object path is left out.
pub proof fn fields_round_trip(fields: FieldsView)
    ensures
        fields_of(raw_of(fields)) == kept_fields(fields),
{
    reveal(raw_of);
    let r0: Seq<RawFieldView> = seq![];
    assert(r0 + raw_field(field_code::PATH, path_value(fields.path)) =~= raw_field(
        field_code::PATH,
        path_value(fields.path),
    ));
    fields_of_append(r0, field_code::PATH, path_value(fields.path));
    let r1 = raw_field(field_code::PATH, path_value(fields.path));
    fields_of_append(r1, field_code::INTERFACE, text_value(fields.interface));
    let r2 = r1 + raw_field(field_code::INTERFACE, text_value(fields.interface));
    fields_of_append(r2, field_code::MEMBER, text_value(fields.member));
    let r3 = r2 + raw_field(field_code::MEMBER, text_value(fields.member));
    fields_of_append(r3, field_code::ERROR_NAME, text_value(fields.error_name));
    let r4 = r3 + raw_field(field_code::ERROR_NAME, text_value(fields.error_name));
    fields_of_append(r4, field_code::REPLY_SERIAL, number_value(fields.reply_serial));
    let r5 = r4 + raw_field(field_code::REPLY_SERIAL, number_value(fields.reply_serial));
    fields_of_append(r5, field_code::DESTINATION, text_value(fields.destination));
    let r6 = r5 + raw_field(field_code::DESTINATION, text_value(fields.destination));
    fields_of_append(r6, field_code::SENDER, text_value(fields.sender));
    let r7 = r6 + raw_field(field_code::SENDER, text_value(fields.sender));
    fields_of_append(r7, field_code::SIGNATURE, signature_value(fields.signature));
    let r8 = r7 + raw_field(field_code::SIGNATURE, signature_value(fields.signature));
    fields_of_append(r8, field_code::UNIX_FDS, number_value(fields.unix_fds));
}

/// The string in a raw value.
fn text_in(value: &Option<FieldValue>) -> (text: Option<String>)
    ensures
        text_of(text) == as_text(value_view(*value)),
{
    match value {
        Some(FieldValue::Str(s)) => Some(s.clone()),
        _ => None,
    }
}

/// The number in a raw value.
fn number_in(value: &Option<FieldValue>) -> (number: Option<u32>)
    ensures
        number == as_number(value_view(*value)),
{
    match value {
        Some(FieldValue::U32(n)) => Some(*n),
        _ => None,
    }
}

impl Default for Fields {
    fn default() -> (fields: Fields)
        ensures
            fields@ == no_fields(),
    {
        Fields {
            path: None,
            interface: None,
            member: None,
            error_name: None,
            destination: None,
            sender: None,
            signature: None,
            reply_serial: None,
            unix_fds: None,
        }
    }
}

/// A copy of an optional string.
pub(crate) fn copy_text(text: &Option<String>) -> (copy: Option<String>)
    ensures
        text_of(copy) == text_of(*text),
{
    match text {
        Some(s) => Some(s.clone()),
        None => None,
    }
}

impl Clone for Fields {
    fn clone(&self) -> (copy: Fields)
        ensures
            copy@ == self@,
    {
        Fields {
            path: copy_text(&self.path),
            interface: copy_text(&self.interface),
            member: copy_text(&self.member),
            error_name: copy_text(&self.error_name),
            destination: copy_text(&self.destination),
            sender: copy_text(&self.sender),
            signature: copy_text(&self.signature),
            reply_serial: self.reply_serial,
            unix_fds: self.unix_fds,
        }
    }
}

/// One for a present field, zero for an absent one.
pub open spec fn counted<T>(field: Option<T>) -> nat {
    if field is Some {
        1
    } else {
        0
    }
}

/// How many fields are present.
pub open spec fn fields_count(fields: FieldsView) -> nat {
    counted(fields.path) + counted(fields.interface) + counted(fields.member) + counted(
        fields.error_name,
    ) + counted(fields.reply_serial) + counted(fields.destination) + counted(fields.sender)
        + counted(fields.signature) + counted(fields.unix_fds)
}

/// Whether the fields can be written: each value has a length that fits its
/// prefix, and so has the whole array.
pub open spec fn encodable_fields(endian: Endian, fields: FieldsView) -> bool {
    &&& forall|i: int|
        0 <= i < raw_of(fields).len() ==> writable((#[trigger] raw_of(fields)[i]).1->Some_0)
    &&& fields_payload(endian, raw_of(fields)).len() <= u32::MAX
}

/// The array grows with each field.
proof fn payload_grows(endian: Endian, raw: Seq<RawFieldView>, n: int)
    requires
        0 <= n <= raw.len(),
    ensures
        fields_payload(endian, raw.take(n)).len() <= fields_payload(endian, raw).len(),
    decreases raw.len(),
{
    if n < raw.len() {
        payload_grows(endian, raw.drop_last(), n);
        assert(raw.drop_last().take(n) =~= raw.take(n));
    } else {
        assert(raw.take(n) =~= raw);
    }
}

/// Appends the raw field of `code`, where it has a value.
fn push_raw(raw: &mut Vec<RawField>, code: u8, value: Option<FieldValue>)
    ensures
        raw_views(final(raw)@) == raw_views(old(raw)@) + raw_field(code, value_view(value)),
{
    if let Some(v) = value {
        raw.push((code, Some(v)));
    }
    assert(raw_views(raw@) =~= raw_views(old(raw)@) + raw_field(code, value_view(value)));
}

/// A text field's value.
fn text_field(text: &Option<String>) -> (value: Option<FieldValue>)
    ensures
        value_view(value) == text_value(text_of(*text)),
{
    match text {
        Some(s) => Some(FieldValue::Str(s.clone())),
        None => None,
    }
}

/// A numeric field's value.
fn number_field(number: Option<u32>) -> (value: Option<FieldValue>)
    ensures
        value_view(value) == number_value(number),
{
    match number {
        Some(n) => Some(FieldValue::U32(n)),
        None => None,
    }
}

impl Fields {
    /// The fields that a list of raw fields gives.
    pub fn from_raw(raw: Vec<RawField>) -> (out: Fields)
        ensures
            out@ == fields_of(raw_views(raw@)),
    {
        let mut out = Fields::default();
        let mut i: usize = 0;
        proof {
            assert(raw_views(raw@).take(0) =~= seq![]);
        }
        while i < raw.len()
            invariant
                i <= raw@.len(),
                out@ == fields_of(raw_views(raw@).take(i as int)),
            decreases raw@.len() - i,
        {
            proof {
                let seen = raw_views(raw@).take(i + 1);
                assert(seen.drop_last() =~= raw_views(raw@).take(i as int));
                assert(seen.last() == (raw@[i as int].0, value_view(raw@[i as int].1)));
            }
            let code: u8 = raw[i].0;
            let value = &raw[i].1;
            if code == field_code::PATH {
                if let Some(FieldValue::ObjectPath(p)) = value {
                    out.path = Some(p.clone());
                }
            } else if code == field_code::INTERFACE {
                out.interface = text_in(value);
            } else if code == field_code::MEMBER {
                out.member = text_in(value);
            } else if code == field_code::ERROR_NAME {
                out.error_name = text_in(value);
            } else if code == field_code::REPLY_SERIAL {
                out.reply_serial = number_in(value);
            } else if code == field_code::DESTINATION {
                out.destination = text_in(value);
            } else if code == field_code::SENDER {
                out.sender = text_in(value);
            } else if code == field_code::SIGNATURE {
                if let Some(FieldValue::Signature(s)) = value {
                    out.signature = Some(s.clone());
                }
            } else if code == field_code::UNIX_FDS {
                out.unix_fds = number_in(value);
            }
            i = i + 1;
        }
        proof {
            assert(raw_views(raw@).take(raw@.len() as int) =~= raw_views(raw@));
        }
        out
    }

    /// How many fields are present.
    pub fn count(&self) -> (n: usize)
        ensures
            n == fields_count(self@),
    {
        let mut n: usize = 0;
        if self.path.is_some() {
            n = n + 1;
        }
        if self.interface.is_some() {
            n = n + 1;
        }
        if self.member.is_some() {
            n = n + 1;
        }
        if self.error_name.is_some() {
            n = n + 1;
        }
        if self.reply_serial.is_some() {
            n = n + 1;
        }
        if self.destination.is_some() {
            n = n + 1;
        }
        if self.sender.is_some() {
            n = n + 1;
        }
        if self.signature.is_some() {
            n = n + 1;
        }
        if self.unix_fds.is_some() {
            n = n + 1;
        }
        n
    }

    /// The raw fields that are written for these fields. A path that is not a
    /// valid object path is left out.
    pub fn to_raw(&self) -> (raw: Vec<RawField>)
        ensures
            raw_views(raw@) == raw_of(self@),
    {
        let path: Option<FieldValue> = match &self.path {
            Some(p) => if valid_object_path(p) {
                Some(FieldValue::ObjectPath(p.clone()))
            } else {
                None
            },
            None => None,
        };
        let signature: Option<FieldValue> = match &self.signature {
            Some(s) => Some(FieldValue::Signature(s.clone())),
            None => None,
        };
        let mut raw: Vec<RawField> = Vec::new();
        push_raw(&mut raw, field_code::PATH, path);
        proof {
            reveal(raw_of);
            assert(raw_views(raw@) =~= raw_field(field_code::PATH, path_value(self@.path)));
        }
        push_raw(&mut raw, field_code::INTERFACE, text_field(&self.interface));
        push_raw(&mut raw, field_code::MEMBER, text_field(&self.member));
        push_raw(&mut raw, field_code::ERROR_NAME, text_field(&self.error_name));
        push_raw(&mut raw, field_code::REPLY_SERIAL, number_field(self.reply_serial));
        push_raw(&mut raw, field_code::DESTINATION, text_field(&self.destination));
        push_raw(&mut raw, field_code::SENDER, text_field(&self.sender));
        push_raw(&mut raw, field_code::SIGNATURE, signature);
        push_raw(&mut raw, field_code::UNIX_FDS, number_field(self.unix_fds));
        raw
    }

    /// Writes the fields as they stand in a message from offset 12 on: the
    /// length of the array, and the array.
    pub fn serialize(&self, endian: Endian) -> (out: Vec<u8>)
        requires
            encodable_fields(endian, self@),
            16 + fields_payload(endian, raw_of(self@)).len() <= usize::MAX,
        ensures
            out@ == fields_section(endian, raw_of(self@)),
    {
        let raw = self.to_raw();
        let ghost all = raw_of(self@);
        let mut payload: Vec<u8> = Vec::new();
        let mut i: usize = 0;
        while i < raw.len()
            invariant
                i <= raw@.len(),
                all == raw_views(raw@),
                all == raw_of(self@),
                encodable_fields(endian, self@),
                16 + fields_payload(endian, all).len() <= usize::MAX,
                payload@ == fields_payload(endian, all.take(i as int)),
            decreases raw@.len() - i,
        {
            proof {
                payload_grows(endian, all, i as int);
                assert(all.take(i + 1).drop_last() =~= all.take(i as int));
                assert(all[i as int] == (raw@[i as int].0, value_view(raw@[i as int].1)));
            }
            let at: usize = 16 + payload.len();
            if let Some(value) = &raw[i].1 {
                append(&mut payload, &encode_field(endian, at, raw[i].0, value));
            }
            i = i + 1;
        }
        proof {
            assert(all.take(all.len() as int) =~= all);
        }
        let mut out: Vec<u8> = Vec::new();
        append(&mut out, &endian_u32(endian, payload.len() as u32));
        append(&mut out, &payload);
        out
    }
}

} // verus!
