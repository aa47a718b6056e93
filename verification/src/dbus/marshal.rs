//! Values of header fields, and the bytes that stand for them on the wire.
//!
//! Encoding and decoding go through `zvariant`. What it writes is stated here
//! byte for byte; what it reads is named, together with the fact that it reads
//! back what was written.

use vstd::prelude::*;
use vstd::utf8::encode_utf8;
use zvariant::serialized::{Context, Data};
use zvariant::{to_bytes, to_bytes_for_signature, ObjectPath, Value, BE, LE};

use super::endian::{u32_bytes, Endian};

verus! {

/// The zero bytes that lead from offset `at` to the next multiple of `bound`.
pub open spec fn padding(at: nat, bound: nat) -> Seq<u8> {
    Seq::new(((bound - at % bound) % bound as int) as nat, |i: int| 0u8)
}

/// A string value: its length in bytes, the bytes, and a closing NUL.
pub open spec fn string_bytes(endian: Endian, text: Seq<char>) -> Seq<u8> {
    u32_bytes(endian, encode_utf8(text).len() as u32) + encode_utf8(text) + seq![0u8]
}

/// A signature value: like a string, with a one-byte length.
pub open spec fn signature_bytes(text: Seq<char>) -> Seq<u8> {
    seq![encode_utf8(text).len() as u8] + encode_utf8(text) + seq![0u8]
}

/// Whether `text` holds no NUL character; one would end a string early.
pub open spec fn nul_free(text: Seq<char>) -> bool {
    forall|i: int| 0 <= i < text.len() ==> text[i] != '\0'
}

/// Whether a string of `text`'s size has a length that fits its prefix.
pub open spec fn fits_string(text: Seq<char>) -> bool {
    encode_utf8(text).len() <= u32::MAX
}

// ---------------------------------------------------------------------------
// Object paths
// ---------------------------------------------------------------------------
/// The characters of a path element.
pub open spec fn is_path_char(c: char) -> bool {
    ||| 'a' <= c <= 'z'
    ||| 'A' <= c <= 'Z'
    ||| '0' <= c <= '9'
    ||| c == '_'
}

/// Whether `p` is a valid object path: `/`, or elements each led by a `/`.
pub open spec fn is_object_path(p: Seq<char>) -> bool {
    &&& p.len() > 0
    &&& p[0] == '/'
    &&& forall|i: int| 0 <= i < p.len() ==> #[trigger] p[i] == '/' || is_path_char(p[i])
    &&& forall|i: int, j: int|
        0 <= i < p.len() && j == i + 1 && j < p.len() ==> !(#[trigger] p[i] == '/'
            && #[trigger] p[j] == '/')
    &&& p.len() > 1 ==> p.last() != '/'
}

/// Calls `zvariant::ObjectPath::try_from`: it succeeds on exactly the strings
/// that its documentation calls valid object paths.
#[verifier::external_body]
pub(crate) fn valid_object_path(path: &str) -> (valid: bool)
    ensures
        valid == is_object_path(path@),
{
    ObjectPath::try_from(path).is_ok()
}

// ---------------------------------------------------------------------------
// Header fields
// ---------------------------------------------------------------------------
/// The value of a header field.
#[derive(Debug, Clone, PartialEq, Eq)]
pub enum FieldValue {
    ObjectPath(String),
    Str(String),
    U32(u32),
    Signature(String),
}

/// What a [`FieldValue`] stands for.
pub enum FieldValueView {
    ObjectPath(Seq<char>),
    Str(Seq<char>),
    U32(u32),
    Signature(Seq<char>),
}

impl View for FieldValue {
    type V = FieldValueView;

    open spec fn view(&self) -> FieldValueView {
        match self {
            FieldValue::ObjectPath(s) => FieldValueView::ObjectPath(s@),
            FieldValue::Str(s) => FieldValueView::Str(s@),
            FieldValue::U32(n) => FieldValueView::U32(*n),
            FieldValue::Signature(s) => FieldValueView::Signature(s@),
        }
    }
}

/// A field as it is read: its code, and its value where it has one of the
/// types that header fields have.
pub type RawField = (u8, Option<FieldValue>);

/// What a [`RawField`] stands for.
pub type RawFieldView = (u8, Option<FieldValueView>);

/// What an optional field value stands for.
pub open spec fn value_view(value: Option<FieldValue>) -> Option<FieldValueView> {
    match value {
        Some(v) => Some(v@),
        None => None,
    }
}

/// What a list of raw fields stands for.
pub open spec fn raw_views(raw: Seq<RawField>) -> Seq<RawFieldView> {
    raw.map_values(|f: RawField| (f.0, value_view(f.1)))
}

/// Whether `value` can be written: its length fits its prefix, and a signature
/// names no `maybe` type, which D-Bus does not have.
pub open spec fn writable(value: FieldValueView) -> bool {
    match value {
        FieldValueView::ObjectPath(s) => fits_string(s),
        FieldValueView::Str(s) => fits_string(s),
        FieldValueView::U32(_) => true,
        FieldValueView::Signature(s) => encode_utf8(s).len() <= 255 && !s.contains('m'),
    }
}

/// The bytes of one header field at message offset `at`: an 8-aligned pair of
/// the code and a variant.
pub open spec fn field_bytes(endian: Endian, at: nat, code: u8, value: FieldValueView) -> Seq<u8> {
    padding(at, 8) + seq![code, 1u8] + match value {
        FieldValueView::ObjectPath(s) => seq!['o' as u8, 0u8] + string_bytes(endian, s),
        FieldValueView::Str(s) => seq!['s' as u8, 0u8] + string_bytes(endian, s),
        FieldValueView::U32(n) => seq!['u' as u8, 0u8] + u32_bytes(endian, n),
        FieldValueView::Signature(s) => seq!['g' as u8, 0u8] + signature_bytes(s),
    }
}

/// Calls `zvariant::to_bytes` on the pair of `code` and the variant of `value`,
/// at message offset `at`. A signature goes through
/// `zvariant::to_bytes_for_signature` instead, as the pair of the variant's own
/// signature and the text: `Value::Signature` would put a list of types in
/// parentheses. Both write the D-Bus format byte for byte.
#[verifier::external_body]
pub(crate) fn encode_field(endian: Endian, at: usize, code: u8, value: &FieldValue) -> (out: Vec<
    u8,
>)
    requires
        writable(value@),
    ensures
        out@ == field_bytes(endian, at as nat, code, value@),
{
    let order = if endian == Endian::Big { BE } else { LE };
    let at = Context::new_dbus(order, at);
    let data = match value {
        FieldValue::ObjectPath(p) => to_bytes(at, &(code, Value::ObjectPath(ObjectPath::from_str_unchecked(p)))),
        FieldValue::Str(s) => to_bytes(at, &(code, Value::Str(s.as_str().into()))),
        FieldValue::U32(n) => to_bytes(at, &(code, Value::U32(*n))),
        FieldValue::Signature(s) => to_bytes_for_signature(at, "(yv)", &(code, ("g", s.as_str()))),
    };
    data.expect("fields serialize").bytes().to_vec()
}

/// The bytes of the header-fields array, which starts at message offset 16.
pub open spec fn fields_payload(endian: Endian, raw: Seq<RawFieldView>) -> Seq<u8>
    decreases raw.len(),
{
    if raw.len() == 0 {
        seq![]
    } else {
        let front = fields_payload(endian, raw.drop_last());
        match raw.last().1 {
            Some(value) => front + field_bytes(endian, 16 + front.len(), raw.last().0, value),
            None => front,
        }
    }
}

/// The bytes of the header-fields array with its length in front.
pub open spec fn fields_section(endian: Endian, raw: Seq<RawFieldView>) -> Seq<u8> {
    let payload = fields_payload(endian, raw);
    u32_bytes(endian, payload.len() as u32) + payload
}

/// The codes of the types that hold no other type.
pub open spec fn is_basic_code(c: char) -> bool {
    ||| c == 'y' || c == 'b' || c == 'n' || c == 'q' || c == 'i' || c == 'u' || c == 'x'
    ||| c == 't' || c == 'd' || c == 's' || c == 'g' || c == 'o' || c == 'v' || c == 'h'
}

/// What follows the first complete type of the signature `s`, with at most
/// `arrays` arrays and `structs` structs inside each other; `None` where `s`
/// starts with none.
pub open spec fn after_type(s: Seq<char>, arrays: nat, structs: nat) -> Option<Seq<char>>
    decreases arrays + structs, 0nat,
{
    if s.len() == 0 {
        None
    } else if is_basic_code(s[0]) {
        Some(s.skip(1))
    } else if s[0] == 'a' && arrays > 0 {
        if s.len() > 1 && s[1] == '{' {
            match after_type(s.skip(2), (arrays - 1) as nat, structs) {
                Some(value) => match after_type(value, (arrays - 1) as nat, structs) {
                    Some(close) => if close.len() > 0 && close[0] == '}' {
                        Some(close.skip(1))
                    } else {
                        None
                    },
                    None => None,
                },
                None => None,
            }
        } else {
            after_type(s.skip(1), (arrays - 1) as nat, structs)
        }
    } else if s[0] == '(' && structs > 0 {
        match after_type(s.skip(1), arrays, (structs - 1) as nat) {
            Some(rest) => after_members(rest, arrays, (structs - 1) as nat, s.len()),
            None => None,
        }
    } else {
        None
    }
}

/// What follows the `)` that closes a struct whose first member has been read.
pub open spec fn after_members(s: Seq<char>, arrays: nat, structs: nat, fuel: nat) -> Option<
    Seq<char>,
>
    decreases arrays + structs, 1 + fuel,
{
    if s.len() > 0 && s[0] == ')' {
        Some(s.skip(1))
    } else if fuel == 0 {
        None
    } else {
        match after_type(s, arrays, structs) {
            Some(rest) => after_members(rest, arrays, structs, (fuel - 1) as nat),
            None => None,
        }
    }
}

/// What follows the first complete type of a signature, with at most 32 arrays
/// and 32 structs inside each other.
pub open spec fn after_first_type(s: Seq<char>) -> Option<Seq<char>> {
    after_type(s, 32, 32)
}

/// Whether `s` is a list of complete types.
pub open spec fn is_signature(s: Seq<char>, fuel: nat) -> bool
    decreases fuel,
{
    s.len() == 0 || (fuel > 0 && match after_first_type(s) {
        Some(rest) => is_signature(rest, (fuel - 1) as nat),
        None => false,
    })
}

/// Whether `s` is a signature that is read as it was written. A single struct
/// is not: its parentheses are taken for those of the list and dropped.
pub open spec fn reads_back(s: Seq<char>) -> bool {
    &&& is_signature(s, s.len())
    &&& encode_utf8(s).len() <= 255
    &&& !(s.len() > 0 && s[0] == '(' && after_first_type(s) == Some(Seq::<char>::empty()))
}

/// Whether each field of `raw` is read as it was written.
pub open spec fn readable(raw: Seq<RawFieldView>) -> bool {
    forall|i: int|
        0 <= i < raw.len() ==> match (#[trigger] raw[i]).1 {
            Some(FieldValueView::ObjectPath(s)) => nul_free(s) && fits_string(s),
            Some(FieldValueView::Str(s)) => nul_free(s) && fits_string(s),
            Some(FieldValueView::U32(_)) => true,
            Some(FieldValueView::Signature(s)) => reads_back(s),
            None => false,
        }
}

/// What `zvariant` reads from a header-fields array and the length in front of
/// it, which start at message offset 12: the fields, or why it read none.
pub uninterp spec fn fields_decoding(endian: Endian, section: Seq<u8>) -> Result<
    Seq<RawFieldView>,
    Seq<char>,
>;

/// Calls `zvariant::serialized::Data::deserialize` for the type `a(yv)`. It is
/// named by [`fields_decoding`]; beside that, it reads back the fields of an
/// array that [`encode_field`] wrote.
#[verifier::external_body]
pub(crate) fn decode_fields(endian: Endian, section: &[u8]) -> (out: Result<Vec<RawField>, String>)
    ensures
        match out {
            Ok(raw) => fields_decoding(endian, section@) == Ok::<Seq<RawFieldView>, Seq<char>>(
                raw_views(raw@),
            ),
            Err(why) => fields_decoding(endian, section@) == Err::<Seq<RawFieldView>, Seq<char>>(
                why@,
            ),
        },
        forall|raw: Seq<RawFieldView>|
            readable(raw) && fields_payload(endian, raw).len() <= u32::MAX && section@
                == #[trigger] fields_section(endian, raw) ==> out is Ok && raw_views(out->Ok_0@)
                == raw,
{
    let order = if endian == Endian::Big { BE } else { LE };
    let data = Data::new(section, Context::new_dbus(order, 12));
    let raw: Vec<(u8, Value)> = data.deserialize().map_err(|e| e.to_string())?.0;
    Ok(raw.into_iter().map(|(code, value)| (code, match value {
        Value::ObjectPath(p) => Some(FieldValue::ObjectPath(p.to_string())),
        Value::Str(s) => Some(FieldValue::Str(s.to_string())),
        Value::U32(n) => Some(FieldValue::U32(n)),
        Value::Signature(s) => Some(FieldValue::Signature(s.to_string_no_parens())),
        _ => None,
    })).collect())
}

} // verus!
