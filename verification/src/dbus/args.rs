//! Arguments of a message body, and the bytes that stand for them on the wire.
//!
//! Encoding and decoding go through `zvariant`. What it writes is stated here
//! byte for byte, and so is what it reads, except for lists of pairs: there the
//! result is named, together with the fact that it reads back what was written.
//! Values of types that no argument has are carried as bytes.

use serde::de::IgnoredAny;
use vstd::prelude::*;
use vstd::string::StrSliceExecFns;
use vstd::utf8::{decode_utf8, encode_utf8, valid_utf8};
use zvariant::serialized::{Context, Data};
use zvariant::{to_bytes, ObjectPath, BE, LE};

use super::endian::{
    bits_of_i16, bits_of_i64, bits_round_trip, i16_bits, i16_from_bits, i16_of_bits, i32_bytes,
    i32_bytes_round_trip, i32_value, i64_bits, i64_from_bits, i64_of_bits, u16_bytes,
    u16_bytes_round_trip, u16_value, u32_bytes, u32_bytes_len, u32_bytes_round_trip, u32_value,
    u64_bytes, u64_bytes_round_trip, u64_value, Endian,
};
use super::marshal::{fits_string, is_object_path, nul_free, padding, string_bytes};
use crate::bytes::copy_range;

verus! {

broadcast use u32_bytes_len;

/// One top-level argument of a message body.
#[derive(Debug, Clone, PartialEq, Eq)]
pub enum Arg {
    U8(u8),
    Bool(bool),
    I16(i16),
    U16(u16),
    I32(i32),
    U32(u32),
    I64(i64),
    U64(u64),
    /// A double, by its bit pattern.
    Double(u64),
    Str(String),
    ObjectPath(String),
    Bytes(Vec<u8>),
    /// An array of pairs of strings.
    StrPairs(Vec<(String, String)>),
    /// An array of pairs of a string and a number.
    StrI32Pairs(Vec<(String, i32)>),
    /// Values of any other types, by the codes of the types and by their bytes:
    /// in little-endian order and aligned for their place, where they are to be
    /// written; a whole body in its frame's byte order, where they were read.
    Encoded { code: String, bytes: Vec<u8> },
}

/// What an [`Arg`] stands for.
pub enum ArgView {
    U8(u8),
    Bool(bool),
    I16(i16),
    U16(u16),
    I32(i32),
    U32(u32),
    I64(i64),
    U64(u64),
    Double(u64),
    Str(Seq<char>),
    ObjectPath(Seq<char>),
    Bytes(Seq<u8>),
    StrPairs(Seq<(Seq<char>, Seq<char>)>),
    StrI32Pairs(Seq<(Seq<char>, i32)>),
    Encoded { code: Seq<char>, bytes: Seq<u8> },
}

/// What a list of pairs of strings stands for.
pub open spec fn pair_views(pairs: Seq<(String, String)>) -> Seq<(Seq<char>, Seq<char>)> {
    pairs.map_values(|p: (String, String)| (p.0@, p.1@))
}

impl View for Arg {
    type V = ArgView;

    open spec fn view(&self) -> ArgView {
        match self {
            Arg::U8(n) => ArgView::U8(*n),
            Arg::Bool(b) => ArgView::Bool(*b),
            Arg::I16(n) => ArgView::I16(*n),
            Arg::U16(n) => ArgView::U16(*n),
            Arg::I32(n) => ArgView::I32(*n),
            Arg::U32(n) => ArgView::U32(*n),
            Arg::I64(n) => ArgView::I64(*n),
            Arg::U64(n) => ArgView::U64(*n),
            Arg::Double(n) => ArgView::Double(*n),
            Arg::Str(s) => ArgView::Str(s@),
            Arg::ObjectPath(s) => ArgView::ObjectPath(s@),
            Arg::Bytes(b) => ArgView::Bytes(b@),
            Arg::StrPairs(v) => ArgView::StrPairs(pair_views(v@)),
            Arg::StrI32Pairs(v) => ArgView::StrI32Pairs(
                v@.map_values(|p: (String, i32)| (p.0@, p.1)),
            ),
            Arg::Encoded { code, bytes } => ArgView::Encoded { code: code@, bytes: bytes@ },
        }
    }
}

/// What a list of arguments stands for.
pub open spec fn arg_views(args: Seq<Arg>) -> Seq<ArgView> {
    args.map_values(|a: Arg| a@)
}

/// The type of an argument.
#[derive(Debug, Clone, Copy, PartialEq, Eq, Structural)]
pub enum ArgKind {
    U8,
    Bool,
    I16,
    U16,
    I32,
    U32,
    I64,
    U64,
    Double,
    Str,
    ObjectPath,
    Bytes,
    StrPairs,
    StrI32Pairs,
    /// Any other, which has no code of its own.
    Other,
}

/// The type of an argument.
pub open spec fn kind_of_arg(arg: ArgView) -> ArgKind {
    match arg {
        ArgView::U8(_) => ArgKind::U8,
        ArgView::Bool(_) => ArgKind::Bool,
        ArgView::I16(_) => ArgKind::I16,
        ArgView::U16(_) => ArgKind::U16,
        ArgView::I32(_) => ArgKind::I32,
        ArgView::U32(_) => ArgKind::U32,
        ArgView::I64(_) => ArgKind::I64,
        ArgView::U64(_) => ArgKind::U64,
        ArgView::Double(_) => ArgKind::Double,
        ArgView::Str(_) => ArgKind::Str,
        ArgView::ObjectPath(_) => ArgKind::ObjectPath,
        ArgView::Bytes(_) => ArgKind::Bytes,
        ArgView::StrPairs(_) => ArgKind::StrPairs,
        ArgView::StrI32Pairs(_) => ArgKind::StrI32Pairs,
        ArgView::Encoded { .. } => ArgKind::Other,
    }
}

/// The code of a type in a signature.
pub open spec fn kind_code(kind: ArgKind) -> Seq<char> {
    match kind {
        ArgKind::U8 => seq!['y'],
        ArgKind::Bool => seq!['b'],
        ArgKind::I16 => seq!['n'],
        ArgKind::U16 => seq!['q'],
        ArgKind::I32 => seq!['i'],
        ArgKind::U32 => seq!['u'],
        ArgKind::I64 => seq!['x'],
        ArgKind::U64 => seq!['t'],
        ArgKind::Double => seq!['d'],
        ArgKind::Str => seq!['s'],
        ArgKind::ObjectPath => seq!['o'],
        ArgKind::Bytes => seq!['a', 'y'],
        ArgKind::StrPairs => seq!['a', '(', 's', 's', ')'],
        ArgKind::StrI32Pairs => seq!['a', '(', 's', 'i', ')'],
        ArgKind::Other => seq![],
    }
}

/// The type code of an argument.
pub open spec fn arg_code(arg: ArgView) -> Seq<char> {
    match arg {
        ArgView::Encoded { code, .. } => code,
        _ => kind_code(kind_of_arg(arg)),
    }
}

/// The members of an array of pairs of strings, the first at message offset
/// `at`: each pair and each second string is aligned.
pub open spec fn pair_members(endian: Endian, at: nat, pairs: Seq<(Seq<char>, Seq<char>)>) -> Seq<
    u8,
>
    decreases pairs.len(),
{
    if pairs.len() == 0 {
        seq![]
    } else {
        let front = pair_members(endian, at, pairs.drop_last());
        let first = front + padding(at + front.len(), 8) + string_bytes(endian, pairs.last().0);
        first + padding(at + first.len(), 4) + string_bytes(endian, pairs.last().1)
    }
}

/// The members of an array of pairs of a string and a number.
pub open spec fn numbered_members(endian: Endian, at: nat, pairs: Seq<(Seq<char>, i32)>) -> Seq<u8>
    decreases pairs.len(),
{
    if pairs.len() == 0 {
        seq![]
    } else {
        let front = numbered_members(endian, at, pairs.drop_last());
        let first = front + padding(at + front.len(), 8) + string_bytes(endian, pairs.last().0);
        first + padding(at + first.len(), 4) + i32_bytes(endian, pairs.last().1)
    }
}

/// The offset of the first member of an array of 8-aligned members whose
/// length stands at the first multiple of four from `at` on.
pub open spec fn members_at(at: nat) -> nat {
    let after_length = at + padding(at, 4).len() + 4;
    after_length + padding(after_length, 8).len()
}

/// The bytes of an argument at body offset `at`, led by its alignment.
pub open spec fn arg_bytes(endian: Endian, at: nat, arg: ArgView) -> Seq<u8> {
    match arg {
        ArgView::U8(n) => seq![n],
        ArgView::I16(n) => padding(at, 2) + u16_bytes(endian, i16_bits(n)),
        ArgView::U16(n) => padding(at, 2) + u16_bytes(endian, n),
        ArgView::I64(n) => padding(at, 8) + u64_bytes(endian, i64_bits(n)),
        ArgView::Bool(b) => padding(at, 4) + u32_bytes(
            endian,
            if b {
                1
            } else {
                0
            },
        ),
        ArgView::I32(n) => padding(at, 4) + i32_bytes(endian, n),
        ArgView::U32(n) => padding(at, 4) + u32_bytes(endian, n),
        ArgView::U64(n) => padding(at, 8) + u64_bytes(endian, n),
        ArgView::Double(n) => padding(at, 8) + u64_bytes(endian, n),
        ArgView::Str(s) => padding(at, 4) + string_bytes(endian, s),
        ArgView::ObjectPath(s) => padding(at, 4) + string_bytes(endian, s),
        ArgView::Bytes(b) => padding(at, 4) + u32_bytes(endian, b.len() as u32) + b,
        ArgView::StrPairs(v) => {
            let members = pair_members(endian, members_at(at), v);
            padding(at, 4) + u32_bytes(endian, members.len() as u32) + padding(
                at + padding(at, 4).len() + 4,
                8,
            ) + members
        },
        ArgView::StrI32Pairs(v) => {
            let members = numbered_members(endian, members_at(at), v);
            padding(at, 4) + u32_bytes(endian, members.len() as u32) + padding(
                at + padding(at, 4).len() + 4,
                8,
            ) + members
        },
        ArgView::Encoded { bytes, .. } => bytes,
    }
}

/// Whether the lengths inside the argument fit their prefixes.
pub open spec fn fits_arg(at: nat, arg: ArgView) -> bool {
    match arg {
        ArgView::Str(s) => fits_string(s),
        ArgView::ObjectPath(s) => fits_string(s),
        ArgView::Bytes(b) => b.len() <= u32::MAX,
        ArgView::StrPairs(v) => pair_members(Endian::Little, members_at(at), v).len() <= u32::MAX,
        ArgView::StrI32Pairs(v) => numbered_members(Endian::Little, members_at(at), v).len()
            <= u32::MAX,
        _ => true,
    }
}

/// Whether a value of the type is written or read by way of a simpler one, or
/// is carried as it is.
pub open spec fn is_reduced(kind: ArgKind) -> bool {
    ||| kind == ArgKind::U8 || kind == ArgKind::I16 || kind == ArgKind::U16
    ||| kind == ArgKind::I64 || kind == ArgKind::Other
}

/// Calls `zvariant::to_bytes` on the value of `arg` at body offset `at`, in
/// little-endian order. It writes the D-Bus format byte for byte. A double is
/// handed over as the 64-bit number of its bit pattern, which has the same
/// alignment and bytes. Types that [`write_arg`] reduces do not come here.
#[verifier::external_body]
fn encode_arg(at: usize, arg: &Arg) -> (out: Vec<u8>)
    requires
        !is_reduced(kind_of_arg(arg@)),
        fits_arg(at as nat, arg@),
    ensures
        out@ == arg_bytes(Endian::Little, at as nat, arg@),
{
    let at = Context::new_dbus(LE, at);
    let data = match arg {
        Arg::Bool(b) => to_bytes(at, b),
        Arg::I32(n) => to_bytes(at, n),
        Arg::U32(n) => to_bytes(at, n),
        Arg::U64(n) | Arg::Double(n) => to_bytes(at, n),
        Arg::Str(s) => to_bytes(at, s),
        Arg::ObjectPath(p) => to_bytes(at, &ObjectPath::from_str_unchecked(p)),
        Arg::StrPairs(v) => to_bytes(at, v),
        Arg::StrI32Pairs(v) => to_bytes(at, v),
        Arg::Bytes(b) => to_bytes(at, b),
        _ => return Vec::new(),
    };
    data.expect("arg serialize").bytes().to_vec()
}

/// Calls `zvariant::to_bytes` on a `u8` or a `u16` at body offset `at`, in
/// little-endian order. It writes the D-Bus format byte for byte.
#[verifier::external_body]
fn encode_narrow(at: usize, kind: ArgKind, n: u16) -> (out: Vec<u8>)
    requires
        kind == ArgKind::U8 || kind == ArgKind::U16,
        kind == ArgKind::U8 ==> n <= u8::MAX,
    ensures
        out@ == arg_bytes(
            Endian::Little,
            at as nat,
            if kind == ArgKind::U8 {
                ArgView::U8(n as u8)
            } else {
                ArgView::U16(n)
            },
        ),
{
    let at = Context::new_dbus(LE, at);
    let data = if kind == ArgKind::U8 { to_bytes(at, &(n as u8)) } else { to_bytes(at, &n) };
    data.expect("arg serialize").bytes().to_vec()
}

/// Writes an argument at body offset `at`, in little-endian order.
pub fn write_arg(at: usize, arg: &Arg) -> (out: Vec<u8>)
    requires
        fits_arg(at as nat, arg@),
    ensures
        out@ == arg_bytes(Endian::Little, at as nat, arg@),
{
    match arg {
        Arg::U8(n) => encode_narrow(at, ArgKind::U8, *n as u16),
        Arg::I16(n) => encode_narrow(at, ArgKind::U16, bits_of_i16(*n)),
        Arg::U16(n) => encode_narrow(at, ArgKind::U16, *n),
        Arg::I64(n) => encode_arg(at, &Arg::U64(bits_of_i64(*n))),
        Arg::Encoded { bytes, .. } => copy_range(bytes, 0, bytes.len()),
        _ => encode_arg(at, arg),
    }
}

/// The bytes of a whole body.
pub open spec fn body_bytes(endian: Endian, args: Seq<ArgView>) -> Seq<u8>
    decreases args.len(),
{
    if args.len() == 0 {
        seq![]
    } else {
        let front = body_bytes(endian, args.drop_last());
        front + arg_bytes(endian, front.len(), args.last())
    }
}

/// The signature of a whole body: the codes of its arguments in order.
pub open spec fn body_signature(args: Seq<ArgView>) -> Seq<char>
    decreases args.len(),
{
    if args.len() == 0 {
        seq![]
    } else {
        body_signature(args.drop_last()) + arg_code(args.last())
    }
}

// ---------------------------------------------------------------------------
// Reading
// ---------------------------------------------------------------------------
/// The `size` bytes behind the alignment that leads `bytes`, whose first byte
/// has offset `at`. Alignment is made of zeroes.
pub open spec fn aligned(at: nat, bound: nat, bytes: Seq<u8>, size: nat) -> Option<Seq<u8>> {
    let lead = padding(at, bound);
    if lead.len() + size <= bytes.len() && bytes.take(lead.len() as int) == lead {
        Some(bytes.subrange(lead.len() as int, (lead.len() + size) as int))
    } else {
        None
    }
}

/// Whether a value of the type holds no other value and no text.
pub open spec fn is_number(kind: ArgKind) -> bool {
    ||| kind == ArgKind::U8 || kind == ArgKind::Bool || kind == ArgKind::I16
    ||| kind == ArgKind::U16 || kind == ArgKind::I32 || kind == ArgKind::U32
    ||| kind == ArgKind::I64 || kind == ArgKind::U64 || kind == ArgKind::Double
}

/// Whether a value of the type is a text.
pub open spec fn is_text(kind: ArgKind) -> bool {
    kind == ArgKind::Str || kind == ArgKind::ObjectPath
}

/// How many bytes a number takes.
pub open spec fn number_size(kind: ArgKind) -> nat {
    if kind == ArgKind::I64 || kind == ArgKind::U64 || kind == ArgKind::Double {
        8
    } else if kind == ArgKind::U8 {
        1
    } else if kind == ArgKind::I16 || kind == ArgKind::U16 {
        2
    } else {
        4
    }
}

/// The number that leads `bytes`, and how many bytes it takes.
pub open spec fn number_at(endian: Endian, kind: ArgKind, at: nat, bytes: Seq<u8>) -> Option<
    (ArgView, nat),
> {
    let size = number_size(kind);
    match aligned(at, size, bytes, size) {
        None => None,
        Some(b) => {
            let taken = padding(at, size).len() + size;
            match kind {
                ArgKind::Bool => if u32_value(endian, b) <= 1 {
                    Some((ArgView::Bool(u32_value(endian, b) == 1), taken))
                } else {
                    None
                },
                ArgKind::U8 => Some((ArgView::U8(b[0]), taken)),
                ArgKind::I16 => Some((ArgView::I16(i16_of_bits(u16_value(endian, b))), taken)),
                ArgKind::U16 => Some((ArgView::U16(u16_value(endian, b)), taken)),
                ArgKind::I64 => Some((ArgView::I64(i64_of_bits(u64_value(endian, b))), taken)),
                ArgKind::I32 => Some((ArgView::I32(i32_value(endian, b)), taken)),
                ArgKind::U32 => Some((ArgView::U32(u32_value(endian, b)), taken)),
                ArgKind::U64 => Some((ArgView::U64(u64_value(endian, b)), taken)),
                _ => Some((ArgView::Double(u64_value(endian, b)), taken)),
            }
        },
    }
}

/// The text that leads `bytes`, and how many bytes it takes with the NUL behind
/// it.
pub open spec fn text_at(endian: Endian, kind: ArgKind, at: nat, bytes: Seq<u8>) -> Option<
    (ArgView, nat),
> {
    match aligned(at, 4, bytes, 4) {
        None => None,
        Some(b) => {
            let n = u32_value(endian, b) as nat;
            let start = padding(at, 4).len() + 4;
            let end = start + n;
            if end > bytes.len() {
                None
            } else {
                let encoded = bytes.subrange(start as int, end as int);
                if encoded.contains(0u8) || !valid_utf8(encoded) {
                    None
                } else if kind == ArgKind::Str {
                    Some((ArgView::Str(decode_utf8(encoded)), end + 1))
                } else if is_object_path(decode_utf8(encoded)) {
                    Some((ArgView::ObjectPath(decode_utf8(encoded)), end + 1))
                } else {
                    None
                }
            }
        },
    }
}

/// What a value that was read stands for, with how many bytes it takes.
pub open spec fn read_arg_view(out: Option<(Arg, usize)>) -> Option<(ArgView, nat)> {
    match out {
        Some((arg, n)) => Some((arg@, n as nat)),
        None => None,
    }
}

/// Calls `zvariant::serialized::Data::deserialize` for a boolean, an `i32`, a
/// `u32` or a `u64`. It reads the D-Bus format: alignment of zeroes, then the
/// number, of which a boolean has to be zero or one. The bits of a double are
/// read as a `u64`, which has the same alignment and bytes.
#[verifier::external_body]
fn decode_number(endian: Endian, kind: ArgKind, at: usize, bytes: &[u8]) -> (out: Option<
    (Arg, usize),
>)
    requires
        is_number(kind),
        !is_reduced(kind),
        at + bytes@.len() <= usize::MAX,
    ensures
        read_arg_view(out) == number_at(endian, kind, at as nat, bytes@),
{
    let order = if endian == Endian::Big { BE } else { LE };
    let data = Data::new(bytes, Context::new_dbus(order, at));
    match kind {
        ArgKind::Bool => data.deserialize().map(|(v, n)| (Arg::Bool(v), n)),
        ArgKind::I32 => data.deserialize().map(|(v, n)| (Arg::I32(v), n)),
        ArgKind::U32 => data.deserialize().map(|(v, n)| (Arg::U32(v), n)),
        ArgKind::U64 => data.deserialize().map(|(v, n)| (Arg::U64(v), n)),
        _ => data.deserialize().map(|(v, n)| (Arg::Double(v), n)),
    }.ok()
}

/// Calls `zvariant::serialized::Data::deserialize` for a `u8` or a `u16`. It
/// reads the D-Bus format: alignment of zeroes, then the number.
#[verifier::external_body]
fn decode_narrow(endian: Endian, kind: ArgKind, at: usize, bytes: &[u8]) -> (out: Option<
    (u16, usize),
>)
    requires
        kind == ArgKind::U8 || kind == ArgKind::U16,
        at + bytes@.len() <= usize::MAX,
    ensures
        match out {
            Some((number, n)) => number_at(endian, kind, at as nat, bytes@) == Some(
                (
                    if kind == ArgKind::U8 {
                        ArgView::U8(number as u8)
                    } else {
                        ArgView::U16(number)
                    },
                    n as nat,
                ),
            ),
            None => number_at(endian, kind, at as nat, bytes@) is None,
        },
{
    let order = if endian == Endian::Big { BE } else { LE };
    let data = Data::new(bytes, Context::new_dbus(order, at));
    if kind == ArgKind::U8 {
        let (number, n): (u8, usize) = data.deserialize().ok()?;
        Some((number.into(), n))
    } else {
        data.deserialize().ok()
    }
}

/// Reads the number that leads `bytes`. Signed numbers of two and of eight bytes
/// are read by their bits.
fn read_number(endian: Endian, kind: ArgKind, at: usize, bytes: &[u8]) -> (out: Option<
    (Arg, usize),
>)
    requires
        is_number(kind),
        at + bytes@.len() <= usize::MAX,
    ensures
        read_arg_view(out) == number_at(endian, kind, at as nat, bytes@),
{
    match kind {
        ArgKind::U8 => match decode_narrow(endian, ArgKind::U8, at, bytes) {
            Some((number, n)) => Some((Arg::U8(number as u8), n)),
            None => None,
        },
        ArgKind::U16 => match decode_narrow(endian, ArgKind::U16, at, bytes) {
            Some((number, n)) => Some((Arg::U16(number), n)),
            None => None,
        },
        ArgKind::I16 => match decode_narrow(endian, ArgKind::U16, at, bytes) {
            Some((number, n)) => Some((Arg::I16(i16_from_bits(number)), n)),
            None => None,
        },
        ArgKind::I64 => match decode_number(endian, ArgKind::U64, at, bytes) {
            Some((Arg::U64(number), n)) => Some((Arg::I64(i64_from_bits(number)), n)),
            _ => None,
        },
        _ => decode_number(endian, kind, at, bytes),
    }
}

/// Calls `zvariant::serialized::Data::deserialize` for a `String` or an
/// `ObjectPath`. It reads the D-Bus format: alignment of zeroes, the length, and
/// as many bytes of UTF-8 without NUL; an object path has to be valid. The byte
/// behind the text is skipped unseen.
#[verifier::external_body]
fn decode_text(endian: Endian, kind: ArgKind, at: usize, bytes: &[u8]) -> (out: Option<
    (Arg, usize),
>)
    requires
        is_text(kind),
        at + bytes@.len() <= usize::MAX,
    ensures
        read_arg_view(out) == text_at(endian, kind, at as nat, bytes@),
{
    let order = if endian == Endian::Big { BE } else { LE };
    let data = Data::new(bytes, Context::new_dbus(order, at));
    if kind == ArgKind::Str {
        let (text, n) = data.deserialize().ok()?;
        Some((Arg::Str(text), n))
    } else {
        let (path, n): (ObjectPath, usize) = data.deserialize().ok()?;
        Some((Arg::ObjectPath(path.to_string()), n))
    }
}

/// Whether each string of the pairs is read as it was written.
pub open spec fn readable_pairs(pairs: Seq<(Seq<char>, Seq<char>)>) -> bool {
    forall|i: int|
        0 <= i < pairs.len() ==> nul_free((#[trigger] pairs[i]).0) && nul_free(pairs[i].1)
}

/// Whether an argument is read as it was written.
pub open spec fn readable_arg(arg: ArgView) -> bool {
    match arg {
        ArgView::Str(s) => nul_free(s),
        ArgView::ObjectPath(s) => is_object_path(s),
        ArgView::StrPairs(v) => readable_pairs(v),
        ArgView::StrI32Pairs(v) => forall|i: int|
            0 <= i < v.len() ==> nul_free((#[trigger] v[i]).0),
        ArgView::Encoded { .. } => false,
        _ => true,
    }
}

/// The list of bytes that leads `bytes`, and how many bytes it takes with its
/// length.
pub open spec fn bytes_at(endian: Endian, at: nat, bytes: Seq<u8>) -> Option<(ArgView, nat)> {
    match aligned(at, 4, bytes, 4) {
        None => None,
        Some(b) => {
            let start = padding(at, 4).len() + 4;
            let end = start + u32_value(endian, b);
            if end > bytes.len() {
                None
            } else {
                Some((ArgView::Bytes(bytes.subrange(start as int, end as int)), end as nat))
            }
        },
    }
}

/// Calls `zvariant::serialized::Data::deserialize` for a `Vec<u8>`. It reads the
/// D-Bus format: alignment of zeroes, the length, and as many bytes.
#[verifier::external_body]
fn decode_bytes(endian: Endian, at: usize, bytes: &[u8]) -> (out: Option<(Arg, usize)>)
    requires
        at + bytes@.len() <= usize::MAX,
    ensures
        read_arg_view(out) == bytes_at(endian, at as nat, bytes@),
{
    let order = if endian == Endian::Big { BE } else { LE };
    let data = Data::new(bytes, Context::new_dbus(order, at));
    let (list, n): (Vec<u8>, usize) = data.deserialize().ok()?;
    Some((Arg::Bytes(list), n))
}

/// Whether a value of the type is a list of pairs.
pub open spec fn is_pairs(kind: ArgKind) -> bool {
    kind == ArgKind::StrPairs || kind == ArgKind::StrI32Pairs
}

/// What `zvariant` reads as a list of pairs of the type, and how many bytes it takes.
pub uninterp spec fn pairs_decoding(
    endian: Endian,
    kind: ArgKind,
    at: nat,
    bytes: Seq<u8>,
) -> Option<(ArgView, nat)>;

/// Calls `zvariant::serialized::Data::deserialize` for a list of pairs of
/// strings, or of pairs of a string and a number. It is named by
/// [`pairs_decoding`]; beside that, what it reads is a list of that type, and it
/// reads back a list that [`encode_arg`] has written, whatever follows it.
#[verifier::external_body]
fn decode_pairs(endian: Endian, kind: ArgKind, at: usize, bytes: &[u8]) -> (out: Option<
    (Arg, usize),
>)
    requires
        is_pairs(kind),
        at + bytes@.len() <= usize::MAX,
    ensures
        read_arg_view(out) == pairs_decoding(endian, kind, at as nat, bytes@),
        out matches Some((arg, _)) ==> kind_of_arg(arg@) == kind,
        forall|arg: ArgView|
            kind_of_arg(arg) == kind && readable_arg(arg) && fits_arg(at as nat, arg) && (
            #[trigger] arg_bytes(endian, at as nat, arg)).is_prefix_of(bytes@) ==> read_arg_view(
                out,
            ) == Some((arg, arg_bytes(endian, at as nat, arg).len())),
{
    let order = if endian == Endian::Big { BE } else { LE };
    let data = Data::new(bytes, Context::new_dbus(order, at));
    match kind {
        ArgKind::StrPairs => data.deserialize().map(|(v, n)| (Arg::StrPairs(v), n)),
        _ => data.deserialize().map(|(v, n)| (Arg::StrI32Pairs(v), n)),
    }.ok()
}

/// The argument that leads `bytes`, and how many bytes it takes. Nothing is read
/// as a value of another type.
pub open spec fn arg_at(endian: Endian, kind: ArgKind, at: nat, bytes: Seq<u8>) -> Option<
    (ArgView, nat),
> {
    if is_number(kind) {
        number_at(endian, kind, at, bytes)
    } else if is_text(kind) {
        text_at(endian, kind, at, bytes)
    } else if is_pairs(kind) {
        pairs_decoding(endian, kind, at, bytes)
    } else if kind == ArgKind::Bytes {
        bytes_at(endian, at, bytes)
    } else {
        None
    }
}

impl ArgKind {
    /// The code of this type in a signature.
    pub fn code(self) -> (code: &'static str)
        ensures
            code@ == kind_code(self),
    {
        let code: &'static str = match self {
            ArgKind::U8 => "y",
            ArgKind::Bool => "b",
            ArgKind::I16 => "n",
            ArgKind::U16 => "q",
            ArgKind::I32 => "i",
            ArgKind::U32 => "u",
            ArgKind::I64 => "x",
            ArgKind::U64 => "t",
            ArgKind::Double => "d",
            ArgKind::Str => "s",
            ArgKind::ObjectPath => "o",
            ArgKind::Bytes => "ay",
            ArgKind::StrPairs => "a(ss)",
            ArgKind::StrI32Pairs => "a(si)",
            ArgKind::Other => "",
        };
        proof {
            reveal_strlit("y");
            reveal_strlit("b");
            reveal_strlit("n");
            reveal_strlit("q");
            reveal_strlit("x");
            reveal_strlit("i");
            reveal_strlit("u");
            reveal_strlit("t");
            reveal_strlit("d");
            reveal_strlit("s");
            reveal_strlit("o");
            reveal_strlit("ay");
            reveal_strlit("a(ss)");
            reveal_strlit("a(si)");
            reveal_strlit("");
            assert(code@ =~= kind_code(self));
        }
        code
    }
}

impl Arg {
    /// The type of this argument.
    pub fn kind(&self) -> (kind: ArgKind)
        ensures
            kind == kind_of_arg(self@),
    {
        match self {
            Arg::U8(_) => ArgKind::U8,
            Arg::Bool(_) => ArgKind::Bool,
            Arg::I16(_) => ArgKind::I16,
            Arg::U16(_) => ArgKind::U16,
            Arg::I32(_) => ArgKind::I32,
            Arg::U32(_) => ArgKind::U32,
            Arg::I64(_) => ArgKind::I64,
            Arg::U64(_) => ArgKind::U64,
            Arg::Double(_) => ArgKind::Double,
            Arg::Str(_) => ArgKind::Str,
            Arg::ObjectPath(_) => ArgKind::ObjectPath,
            Arg::Bytes(_) => ArgKind::Bytes,
            Arg::StrPairs(_) => ArgKind::StrPairs,
            Arg::StrI32Pairs(_) => ArgKind::StrI32Pairs,
            Arg::Encoded { .. } => ArgKind::Other,
        }
    }

    /// The type code of this argument.
    pub fn code(&self) -> (code: &str)
        ensures
            code@ == arg_code(self@),
    {
        match self {
            Arg::Encoded { code, .. } => code.as_str(),
            _ => self.kind().code(),
        }
    }
}

/// What stands behind its alignment is found there.
proof fn aligned_prefix(at: nat, bound: nat, part: Seq<u8>, bytes: Seq<u8>)
    requires
        (padding(at, bound) + part).is_prefix_of(bytes),
    ensures
        aligned(at, bound, bytes, part.len()) == Some(part),
{
    let lead = padding(at, bound);
    let all = lead + part;
    assert(all =~= bytes.subrange(0, all.len() as int));
    assert(bytes.take(lead.len() as int) =~= all.take(lead.len() as int));
    assert(all.take(lead.len() as int) =~= lead);
    let got = bytes.subrange(lead.len() as int, (lead.len() + part.len()) as int);
    assert(got =~= all.subrange(lead.len() as int, all.len() as int));
    assert(all.subrange(lead.len() as int, all.len() as int) =~= part);
}

/// A number that was written is read back.
proof fn number_read_back(endian: Endian, at: nat, arg: ArgView, bytes: Seq<u8>)
    requires
        is_number(kind_of_arg(arg)),
        arg_bytes(endian, at, arg).is_prefix_of(bytes),
    ensures
        number_at(endian, kind_of_arg(arg), at, bytes) == Some(
            (arg, arg_bytes(endian, at, arg).len()),
        ),
{
    match arg {
        ArgView::U8(n) => {
            assert(padding(at, 1) + seq![n] =~= seq![n]);
            aligned_prefix(at, 1, seq![n], bytes);
        },
        ArgView::I16(n) => {
            bits_round_trip(n, 0);
            u16_bytes_round_trip(endian, i16_bits(n));
            aligned_prefix(at, 2, u16_bytes(endian, i16_bits(n)), bytes);
        },
        ArgView::U16(n) => {
            u16_bytes_round_trip(endian, n);
            aligned_prefix(at, 2, u16_bytes(endian, n), bytes);
        },
        ArgView::I64(n) => {
            bits_round_trip(0, n);
            u64_bytes_round_trip(endian, i64_bits(n));
            aligned_prefix(at, 8, u64_bytes(endian, i64_bits(n)), bytes);
        },
        ArgView::Bool(b) => {
            let n: u32 = if b {
                1
            } else {
                0
            };
            u32_bytes_round_trip(endian, n, u32_bytes(endian, n));
            aligned_prefix(at, 4, u32_bytes(endian, n), bytes);
        },
        ArgView::I32(n) => {
            i32_bytes_round_trip(endian, n, i32_bytes(endian, n));
            aligned_prefix(at, 4, i32_bytes(endian, n), bytes);
        },
        ArgView::U32(n) => {
            u32_bytes_round_trip(endian, n, u32_bytes(endian, n));
            aligned_prefix(at, 4, u32_bytes(endian, n), bytes);
        },
        ArgView::U64(n) => {
            u64_bytes_round_trip(endian, n);
            aligned_prefix(at, 8, u64_bytes(endian, n), bytes);
        },
        ArgView::Double(n) => {
            u64_bytes_round_trip(endian, n);
            aligned_prefix(at, 8, u64_bytes(endian, n), bytes);
        },
        _ => {},
    }
}

/// A valid object path holds no NUL.
proof fn paths_are_nul_free(path: Seq<char>)
    requires
        is_object_path(path),
    ensures
        nul_free(path),
{
    assert forall|i: int| 0 <= i < path.len() implies path[i] != '\0' by {
        assert(path[i] == '/' || super::marshal::is_path_char(path[i]));
    }
}

/// A text that was written is read back.
proof fn text_read_back(endian: Endian, at: nat, arg: ArgView, bytes: Seq<u8>)
    requires
        is_text(kind_of_arg(arg)),
        readable_arg(arg),
        fits_arg(at, arg),
        arg_bytes(endian, at, arg).is_prefix_of(bytes),
    ensures
        text_at(endian, kind_of_arg(arg), at, bytes) == Some(
            (arg, arg_bytes(endian, at, arg).len()),
        ),
{
    let text = match arg {
        ArgView::Str(s) => s,
        ArgView::ObjectPath(s) => s,
        _ => seq![],
    };
    if arg is ObjectPath {
        paths_are_nul_free(text);
    }
    let encoded = encode_utf8(text);
    let n = encoded.len() as u32;
    let len = u32_bytes(endian, n);
    let lead = padding(at, 4);
    let all = arg_bytes(endian, at, arg);
    assert(all == lead + (len + encoded + seq![0u8]));
    u32_bytes_round_trip(endian, n, len);
    assert((lead + len).is_prefix_of(bytes)) by {
        assert(all =~= bytes.subrange(0, all.len() as int));
        assert(lead + len =~= all.subrange(0, (lead.len() + 4) as int));
        assert(lead + len =~= bytes.subrange(0, (lead.len() + 4) as int));
    }
    aligned_prefix(at, 4, len, bytes);
    let start = lead.len() + 4;
    let end = start + encoded.len();
    assert(bytes.subrange(start as int, end as int) =~= encoded) by {
        assert(all =~= bytes.subrange(0, all.len() as int));
        assert(all.subrange(start as int, end as int) =~= encoded);
        assert(bytes.subrange(start as int, end as int) =~= all.subrange(start as int, end as int));
    }
    utf8_without_nul(text);
    vstd::utf8::encode_utf8_valid_utf8(text);
    vstd::utf8::encode_utf8_decode_utf8(text);
}

/// A list of bytes that was written is read back.
proof fn bytes_read_back(endian: Endian, at: nat, arg: ArgView, bytes: Seq<u8>)
    requires
        arg is Bytes,
        fits_arg(at, arg),
        arg_bytes(endian, at, arg).is_prefix_of(bytes),
    ensures
        bytes_at(endian, at, bytes) == Some((arg, arg_bytes(endian, at, arg).len())),
{
    let list = arg->Bytes_0;
    let n = list.len() as u32;
    let len = u32_bytes(endian, n);
    let lead = padding(at, 4);
    let all = arg_bytes(endian, at, arg);
    u32_bytes_round_trip(endian, n, len);
    assert(all =~= bytes.subrange(0, all.len() as int));
    assert((lead + len).is_prefix_of(bytes)) by {
        assert(lead + len =~= all.subrange(0, (lead.len() + 4) as int));
        assert(lead + len =~= bytes.subrange(0, (lead.len() + 4) as int));
    }
    aligned_prefix(at, 4, len, bytes);
    let start = lead.len() + 4;
    assert(all.subrange(start as int, all.len() as int) =~= list);
    assert(bytes.subrange(start as int, all.len() as int) =~= all.subrange(
        start as int,
        all.len() as int,
    ));
}

/// The bytes of a character are not zero, unless it is NUL.
proof fn scalar_without_nul(c: char)
    requires
        c != '\0',
    ensures
        !vstd::utf8::encode_scalar(c as u32).contains(0u8),
{
    let v = c as u32;
    vstd::utf8::char_is_scalar(c);
    assert(v != 0);
    if vstd::utf8::has_width_1_encoding(v) {
        assert(vstd::utf8::leading_byte_width_1(v) != 0) by (bit_vector)
            requires
                v != 0,
                vstd::utf8::has_width_1_encoding(v),
        ;
    } else {
        assert(vstd::utf8::leading_byte_width_2(v) != 0) by (bit_vector);
        assert(vstd::utf8::leading_byte_width_3(v) != 0) by (bit_vector);
        assert(vstd::utf8::leading_byte_width_4(v) != 0) by (bit_vector);
        assert(vstd::utf8::last_continuation_byte(v) != 0) by (bit_vector);
        assert(vstd::utf8::second_last_continuation_byte(v) != 0) by (bit_vector);
        assert(vstd::utf8::third_last_continuation_byte(v) != 0) by (bit_vector);
    }
}

/// The bytes of a text hold a zero only where the text holds a NUL.
proof fn utf8_without_nul(text: Seq<char>)
    requires
        nul_free(text),
    ensures
        !encode_utf8(text).contains(0u8),
    decreases text.len(),
{
    if text.len() > 0 {
        let rest = text.drop_first();
        assert forall|i: int| 0 <= i < rest.len() implies rest[i] != '\0' by {
            assert(rest[i] == text[i + 1]);
        }
        utf8_without_nul(rest);
        scalar_without_nul(text[0]);
        let first = vstd::utf8::encode_scalar(text[0] as u32);
        let tail = encode_utf8(rest);
        assert(encode_utf8(text) == first + tail);
        assert forall|i: int| 0 <= i < (first + tail).len() implies (first + tail)[i] != 0 by {
            if i < first.len() {
                assert(first.contains(first[i]));
            } else {
                assert(tail.contains(tail[i - first.len()]));
            }
        }
    }
}

/// Whether `out` is the argument that was written, where `bytes` starts with one
/// of the type.
#[verifier::opaque]
spec fn gives_back(
    endian: Endian,
    kind: ArgKind,
    at: nat,
    bytes: Seq<u8>,
    out: Option<(ArgView, nat)>,
) -> bool {
    forall|arg: ArgView|
        kind_of_arg(arg) == kind && readable_arg(arg) && fits_arg(at, arg) && (
        #[trigger] arg_bytes(endian, at, arg)).is_prefix_of(bytes) ==> out == Some(
            (arg, arg_bytes(endian, at, arg).len()),
        )
}

/// Reads the argument that leads `bytes`, whose first byte has body offset `at`.
/// One that was written is read back, whatever follows it.
fn decode_arg(endian: Endian, kind: ArgKind, at: usize, bytes: &[u8]) -> (out: Option<
    (Arg, usize),
>)
    requires
        at + bytes@.len() <= usize::MAX,
    ensures
        read_arg_view(out) == arg_at(endian, kind, at as nat, bytes@),
        out matches Some((arg, _)) ==> kind_of_arg(arg@) == kind,
        gives_back(endian, kind, at as nat, bytes@, read_arg_view(out)),
{
    proof {
        reveal(gives_back);
        assert forall|arg: ArgView|
            is_number(kind) && kind_of_arg(arg) == kind && (#[trigger] arg_bytes(
                endian,
                at as nat,
                arg,
            )).is_prefix_of(bytes@) implies number_at(endian, kind, at as nat, bytes@) == Some(
            (arg, arg_bytes(endian, at as nat, arg).len()),
        ) by {
            number_read_back(endian, at as nat, arg, bytes@);
        }
        assert forall|arg: ArgView|
            is_text(kind) && kind_of_arg(arg) == kind && readable_arg(arg) && fits_arg(
                at as nat,
                arg,
            ) && (#[trigger] arg_bytes(endian, at as nat, arg)).is_prefix_of(
                bytes@,
            ) implies text_at(endian, kind, at as nat, bytes@) == Some(
            (arg, arg_bytes(endian, at as nat, arg).len()),
        ) by {
            text_read_back(endian, at as nat, arg, bytes@);
        }
        assert forall|arg: ArgView|
            arg is Bytes && fits_arg(at as nat, arg) && (#[trigger] arg_bytes(
                endian,
                at as nat,
                arg,
            )).is_prefix_of(bytes@) implies bytes_at(endian, at as nat, bytes@) == Some(
            (arg, arg_bytes(endian, at as nat, arg).len()),
        ) by {
            bytes_read_back(endian, at as nat, arg, bytes@);
        }
    }
    match kind {
        ArgKind::Str => decode_text(endian, kind, at, bytes),
        ArgKind::ObjectPath => decode_text(endian, kind, at, bytes),
        ArgKind::Bytes => decode_bytes(endian, at, bytes),
        ArgKind::StrPairs => decode_pairs(endian, kind, at, bytes),
        ArgKind::StrI32Pairs => decode_pairs(endian, kind, at, bytes),
        ArgKind::Other => None,
        _ => read_number(endian, kind, at, bytes),
    }
}

// ---------------------------------------------------------------------------
// Signatures
// ---------------------------------------------------------------------------
/// The type whose code leads a signature.
pub open spec fn first_kind(s: Seq<char>) -> Option<ArgKind> {
    if s.len() == 0 {
        None
    } else if s[0] == 'y' {
        Some(ArgKind::U8)
    } else if s[0] == 'b' {
        Some(ArgKind::Bool)
    } else if s[0] == 'n' {
        Some(ArgKind::I16)
    } else if s[0] == 'q' {
        Some(ArgKind::U16)
    } else if s[0] == 'i' {
        Some(ArgKind::I32)
    } else if s[0] == 'u' {
        Some(ArgKind::U32)
    } else if s[0] == 'x' {
        Some(ArgKind::I64)
    } else if s[0] == 't' {
        Some(ArgKind::U64)
    } else if s[0] == 'd' {
        Some(ArgKind::Double)
    } else if s[0] == 's' {
        Some(ArgKind::Str)
    } else if s[0] == 'o' {
        Some(ArgKind::ObjectPath)
    } else if s[0] != 'a' || s.len() < 2 {
        None
    } else if s[1] == 'y' {
        Some(ArgKind::Bytes)
    } else if s.len() < 5 || s[1] != '(' || s[2] != 's' || s[4] != ')' {
        None
    } else if s[3] == 's' {
        Some(ArgKind::StrPairs)
    } else if s[3] == 'i' {
        Some(ArgKind::StrI32Pairs)
    } else {
        None
    }
}

/// The types in a signature; `None` where one of them is another.
pub open spec fn kinds_of(s: Seq<char>) -> Option<Seq<ArgKind>>
    decreases s.len(),
{
    if s.len() == 0 {
        Some(seq![])
    } else {
        match first_kind(s) {
            None => None,
            Some(kind) => match kinds_of(s.skip(kind_code(kind).len() as int)) {
                Some(rest) => Some(seq![kind] + rest),
                None => None,
            },
        }
    }
}

/// The types of arguments.
pub open spec fn kinds_of_args(args: Seq<ArgView>) -> Seq<ArgKind> {
    args.map_values(|a: ArgView| kind_of_arg(a))
}

/// A signature that starts with the code of a type.
proof fn first_kind_of_code(kind: ArgKind, rest: Seq<char>)
    requires
        kind != ArgKind::Other,
    ensures
        first_kind(kind_code(kind) + rest) == Some(kind),
        (kind_code(kind) + rest).skip(kind_code(kind).len() as int) == rest,
        kind_code(kind).len() > 0,
{
    let s = kind_code(kind) + rest;
    assert(s.skip(kind_code(kind).len() as int) =~= rest);
    assert(s[0] == kind_code(kind)[0]);
}

/// The signature of arguments, read from its front.
proof fn body_signature_front(args: Seq<ArgView>)
    requires
        args.len() > 0,
    ensures
        body_signature(args) == arg_code(args[0]) + body_signature(args.skip(1)),
    decreases args.len(),
{
    if args.len() == 1 {
        assert(args.drop_last() =~= seq![]);
        assert(args.skip(1) =~= seq![]);
        reveal_with_fuel(body_signature, 2);
        assert(body_signature(args) =~= arg_code(args[0]) + body_signature(args.skip(1)));
    } else {
        body_signature_front(args.drop_last());
        assert(args.skip(1).drop_last() =~= args.drop_last().skip(1));
        assert(args.drop_last()[0] == args[0]);
        assert(args.skip(1).last() == args.last());
        assert(body_signature(args) =~= arg_code(args[0]) + body_signature(args.skip(1)));
    }
}

/// The types of arguments are read back from their signature, where it has a
/// code for each.
pub proof fn signature_round_trip(args: Seq<ArgView>)
    requires
        forall|i: int| 0 <= i < args.len() ==> !((#[trigger] args[i]) is Encoded),
    ensures
        kinds_of(body_signature(args)) == Some(kinds_of_args(args)),
    decreases args.len(),
{
    if args.len() == 0 {
        assert(kinds_of_args(args) =~= seq![]);
    } else {
        let rest = args.skip(1);
        body_signature_front(args);
        assert forall|i: int| 0 <= i < rest.len() implies !((#[trigger] rest[i]) is Encoded) by {
            assert(rest[i] == args[i + 1]);
        }
        signature_round_trip(rest);
        first_kind_of_code(kind_of_arg(args[0]), body_signature(rest));
        assert(kinds_of_args(args) =~= seq![kind_of_arg(args[0])] + kinds_of_args(rest));
    }
}

/// Finds the type whose code leads `signature` from its `at`th character on.
fn kind_at(signature: &str, len: usize, at: usize) -> (kind: Option<ArgKind>)
    requires
        len == signature@.len(),
        at <= len,
    ensures
        kind == first_kind(signature@.skip(at as int)),
{
    if at == len {
        return None;
    }
    let c = signature.get_char(at);
    if c == 'y' {
        Some(ArgKind::U8)
    } else if c == 'b' {
        Some(ArgKind::Bool)
    } else if c == 'n' {
        Some(ArgKind::I16)
    } else if c == 'q' {
        Some(ArgKind::U16)
    } else if c == 'i' {
        Some(ArgKind::I32)
    } else if c == 'u' {
        Some(ArgKind::U32)
    } else if c == 'x' {
        Some(ArgKind::I64)
    } else if c == 't' {
        Some(ArgKind::U64)
    } else if c == 'd' {
        Some(ArgKind::Double)
    } else if c == 's' {
        Some(ArgKind::Str)
    } else if c == 'o' {
        Some(ArgKind::ObjectPath)
    } else if c != 'a' || len - at < 2 {
        None
    } else if signature.get_char(at + 1) == 'y' {
        Some(ArgKind::Bytes)
    } else if len - at < 5 || signature.get_char(at + 1) != '(' || signature.get_char(at + 2) != 's'
        || signature.get_char(at + 4) != ')' {
        None
    } else if signature.get_char(at + 3) == 's' {
        Some(ArgKind::StrPairs)
    } else if signature.get_char(at + 3) == 'i' {
        Some(ArgKind::StrI32Pairs)
    } else {
        None
    }
}

/// Reads the types in a signature; `None` where one of them is another.
pub fn parse_signature(signature: &str) -> (kinds: Option<Vec<ArgKind>>)
    ensures
        match kinds {
            Some(kinds) => kinds_of(signature@) == Some(kinds@),
            None => kinds_of(signature@) is None,
        },
{
    let len: usize = signature.unicode_len();
    let mut kinds: Vec<ArgKind> = Vec::new();
    let mut at: usize = 0;
    proof {
        assert(signature@.skip(0) =~= signature@);
        if let Some(rest) = kinds_of(signature@) {
            assert(Seq::<ArgKind>::empty() + rest =~= rest);
        }
    }
    while at < len
        invariant
            len == signature@.len(),
            at <= len,
            kinds_of(signature@) == match kinds_of(signature@.skip(at as int)) {
                Some(rest) => Some(kinds@ + rest),
                None => None,
            },
        decreases len - at,
    {
        let kind = match kind_at(signature, len, at) {
            Some(kind) => kind,
            None => {
                return None;
            },
        };
        let size: usize = match kind {
            ArgKind::Bytes => 2,
            ArgKind::StrPairs => 5,
            ArgKind::StrI32Pairs => 5,
            _ => 1,
        };
        proof {
            let here = signature@.skip(at as int);
            assert(here.skip(size as int) =~= signature@.skip(at + size));
            if let Some(rest) = kinds_of(signature@.skip(at + size)) {
                assert(kinds@ + (seq![kind] + rest) =~= kinds@.push(kind) + rest);
            }
        }
        kinds.push(kind);
        at = at + size;
    }
    proof {
        assert(signature@.skip(len as int) =~= seq![]);
        assert(kinds@ + Seq::<ArgKind>::empty() =~= kinds@);
    }
    Some(kinds)
}

/// What a list of arguments that were read stands for.
pub open spec fn args_view(args: Option<Vec<Arg>>) -> Option<Seq<ArgView>> {
    match args {
        Some(args) => Some(arg_views(args@)),
        None => None,
    }
}

/// The arguments of the types `kinds` in a body, the first at offset `at`.
pub open spec fn args_from(endian: Endian, kinds: Seq<ArgKind>, body: Seq<u8>, at: nat) -> Option<
    Seq<ArgView>,
>
    decreases kinds.len(),
{
    if kinds.len() == 0 {
        Some(seq![])
    } else if at > body.len() {
        None
    } else {
        match arg_at(endian, kinds[0], at, body.skip(at as int)) {
            None => None,
            Some((arg, n)) => match args_from(endian, kinds.skip(1), body, at + n) {
                Some(rest) => Some(seq![arg] + rest),
                None => None,
            },
        }
    }
}

/// Whether each argument is read as it was written.
pub open spec fn readable_args(args: Seq<ArgView>) -> bool {
    forall|i: int| 0 <= i < args.len() ==> readable_arg(#[trigger] args[i])
}

/// Whether the lengths inside each argument fit their prefixes.
pub open spec fn fits_args(endian: Endian, args: Seq<ArgView>) -> bool {
    forall|i: int|
        0 <= i < args.len() ==> fits_arg(
            body_bytes(endian, args.take(i)).len(),
            #[trigger] args[i],
        )
}

/// Where the arguments of a written body stand.
proof fn arg_in_body(endian: Endian, args: Seq<ArgView>, i: int)
    requires
        0 <= i < args.len(),
    ensures
        ({
            let at = body_bytes(endian, args.take(i)).len();
            let arg = arg_bytes(endian, at, args[i]);
            &&& at + arg.len() == body_bytes(endian, args.take(i + 1)).len()
            &&& at + arg.len() <= body_bytes(endian, args).len()
            &&& arg.is_prefix_of(body_bytes(endian, args).skip(at as int))
        }),
    decreases args.len(),
{
    let front = body_bytes(endian, args.take(i));
    let arg = arg_bytes(endian, front.len(), args[i]);
    let here = body_bytes(endian, args.take(i + 1));
    assert(args.take(i + 1).drop_last() =~= args.take(i));
    assert(here == front + arg);
    let all = body_bytes(endian, args);
    if i + 1 == args.len() {
        assert(args.take(i + 1) =~= args);
        assert(arg =~= all.skip(front.len() as int).subrange(0, arg.len() as int));
    } else {
        let less = args.drop_last();
        arg_in_body(endian, less, i);
        assert(less.take(i) =~= args.take(i));
        assert(less.take(i + 1) =~= args.take(i + 1));
        assert(less[i] == args[i]);
        let part = body_bytes(endian, less);
        assert(all.skip(front.len() as int).subrange(0, arg.len() as int) =~= part.skip(
            front.len() as int,
        ).subrange(0, arg.len() as int));
    }
}

/// Whether the arguments are of the first of the types.
#[verifier::opaque]
spec fn lead_types(args: Seq<ArgView>, kinds: Seq<ArgKind>) -> bool {
    args.len() <= kinds.len() && kinds_of_args(args) == kinds.take(args.len() as int)
}

/// No arguments are of the first types.
proof fn lead_types_none(args: Seq<ArgView>, kinds: Seq<ArgKind>)
    requires
        args.len() == 0,
    ensures
        lead_types(args, kinds),
{
    reveal(lead_types);
    assert(kinds_of_args(args) =~= kinds.take(0));
}

/// One more argument of the next type.
proof fn lead_types_grow(args: Seq<ArgView>, arg: ArgView, kinds: Seq<ArgKind>)
    requires
        lead_types(args, kinds),
        args.len() < kinds.len(),
        kind_of_arg(arg) == kinds[args.len() as int],
    ensures
        lead_types(args.push(arg), kinds),
{
    reveal(lead_types);
    let n = args.len() as int;
    assert(kinds_of_args(args.push(arg)) =~= kinds_of_args(args).push(kind_of_arg(arg)));
    assert(kinds.take(n + 1) =~= kinds.take(n).push(kinds[n]));
}

/// As many arguments as types.
proof fn lead_types_whole(args: Seq<ArgView>, kinds: Seq<ArgKind>)
    requires
        lead_types(args, kinds),
        args.len() == kinds.len(),
    ensures
        kinds_of_args(args) == kinds,
{
    reveal(lead_types);
    assert(kinds.take(args.len() as int) =~= kinds);
}

/// Whether a body holds the arguments `written`, each of which is read back.
#[verifier::opaque]
spec fn holds(endian: Endian, kinds: Seq<ArgKind>, body: Seq<u8>, written: Seq<ArgView>) -> bool {
    &&& readable_args(written)
    &&& fits_args(endian, written)
    &&& kinds == kinds_of_args(written)
    &&& body == body_bytes(endian, written)
}

/// Whether `args`, which end at offset `at`, are the first of any arguments that
/// the body holds.
#[verifier::opaque]
spec fn lead_body(
    endian: Endian,
    kinds: Seq<ArgKind>,
    body: Seq<u8>,
    args: Seq<ArgView>,
    at: nat,
) -> bool {
    forall|written: Seq<ArgView>| #[trigger]
        holds(endian, kinds, body, written) ==> args == written.take(args.len() as int) && at
            == body_bytes(endian, written.take(args.len() as int)).len()
}

/// No arguments are the first of any.
proof fn lead_body_none(endian: Endian, kinds: Seq<ArgKind>, body: Seq<u8>, args: Seq<ArgView>)
    requires
        args.len() == 0,
    ensures
        lead_body(endian, kinds, body, args, 0),
{
    reveal(lead_body);
    assert forall|written: Seq<ArgView>| #[trigger]
        holds(endian, kinds, body, written) implies args == written.take(0) && body_bytes(
        endian,
        written.take(0),
    ).len() == 0 by {
        assert(args =~= written.take(0));
    }
}

/// The next of the arguments that a body holds.
proof fn next_in_body(
    endian: Endian,
    kinds: Seq<ArgKind>,
    body: Seq<u8>,
    args: Seq<ArgView>,
    at: nat,
    written: Seq<ArgView>,
)
    requires
        lead_body(endian, kinds, body, args, at),
        holds(endian, kinds, body, written),
        args.len() < kinds.len(),
    ensures
        ({
            let i = args.len() as int;
            let arg = arg_bytes(endian, at, written[i]);
            &&& written.len() == kinds.len()
            &&& args == written.take(i)
            &&& at <= body.len()
            &&& kind_of_arg(written[i]) == kinds[i]
            &&& readable_arg(written[i])
            &&& fits_arg(at, written[i])
            &&& arg.is_prefix_of(body.skip(at as int))
            &&& body_bytes(endian, written.take(i + 1)).len() == at + arg.len()
        }),
{
    reveal(lead_body);
    reveal(holds);
    let i = args.len() as int;
    assert(kinds_of_args(written)[i] == kind_of_arg(written[i]));
    arg_in_body(endian, written, i);
}

/// One more argument that was read leads the body too.
proof fn lead_body_grows(
    endian: Endian,
    kinds: Seq<ArgKind>,
    body: Seq<u8>,
    args: Seq<ArgView>,
    at: nat,
    arg: ArgView,
    n: nat,
)
    requires
        lead_body(endian, kinds, body, args, at),
        args.len() < kinds.len(),
        gives_back(
            endian,
            kinds[args.len() as int],
            at,
            body.skip(at as int),
            Some((arg, n)),
        ),
    ensures
        lead_body(endian, kinds, body, args.push(arg), at + n),
{
    let i = args.len() as int;
    assert forall|written: Seq<ArgView>| #[trigger]
        holds(endian, kinds, body, written) implies args.push(arg) == written.take(i + 1) && at + n
        == body_bytes(endian, written.take(i + 1)).len() by {
        next_in_body(endian, kinds, body, args, at, written);
        reveal(gives_back);
        assert(arg == written[i]);
        assert(args.push(arg) =~= written.take(i + 1));
    }
    reveal(lead_body);
}

/// Where the next argument is not read, the body holds none that are read back.
proof fn nothing_held(
    endian: Endian,
    kinds: Seq<ArgKind>,
    body: Seq<u8>,
    args: Seq<ArgView>,
    at: nat,
)
    requires
        lead_body(endian, kinds, body, args, at),
        args.len() < kinds.len(),
        at > body.len() || gives_back(
            endian,
            kinds[args.len() as int],
            at,
            body.skip(at as int),
            None,
        ),
    ensures
        forall|written: Seq<ArgView>| !#[trigger] holds(endian, kinds, body, written),
{
    assert forall|written: Seq<ArgView>| !#[trigger] holds(endian, kinds, body, written) by {
        if holds(endian, kinds, body, written) {
            next_in_body(endian, kinds, body, args, at, written);
            reveal(gives_back);
        }
    }
}

/// One argument in front of others.
proof fn args_from_next(
    endian: Endian,
    kinds: Seq<ArgKind>,
    body: Seq<u8>,
    args: Seq<ArgView>,
    at: nat,
    arg: ArgView,
    n: nat,
)
    requires
        args.len() < kinds.len(),
        at <= body.len(),
        arg_at(endian, kinds[args.len() as int], at, body.skip(at as int)) == Some((arg, n)),
    ensures
        joined(args, args_from(endian, kinds.skip(args.len() as int), body, at)) == joined(
            args.push(arg),
            args_from(endian, kinds.skip(args.len() as int + 1), body, at + n),
        ),
{
    let i = args.len() as int;
    assert(kinds.skip(i).skip(1) =~= kinds.skip(i + 1));
    assert(kinds.skip(i)[0] == kinds[i]);
    if let Some(tail) = args_from(endian, kinds.skip(i + 1), body, at + n) {
        assert(args + (seq![arg] + tail) =~= args.push(arg) + tail);
    }
}

/// Arguments in front of those that follow, if they are there.
spec fn joined(args: Seq<ArgView>, rest: Option<Seq<ArgView>>) -> Option<Seq<ArgView>> {
    match rest {
        Some(rest) => Some(args + rest),
        None => None,
    }
}

/// Reads the arguments of the types `kinds` in a body. Arguments that were
/// written are read back.
pub fn decode_args(endian: Endian, kinds: &Vec<ArgKind>, body: &[u8]) -> (args: Option<Vec<Arg>>)
    ensures
        args_view(args) == args_from(endian, kinds@, body@, 0),
        args matches Some(a) ==> kinds_of_args(arg_views(a@)) == kinds@,
        forall|written: Seq<ArgView>|
            readable_args(written) && fits_args(endian, written) && kinds@ == kinds_of_args(written)
                && body@ == #[trigger] body_bytes(endian, written) ==> args_view(args) == Some(
                written,
            ),
{
    let mut args: Vec<Arg> = Vec::new();
    // Wide enough for an offset just behind the largest body.
    let mut at: u128 = 0;
    let mut i: usize = 0;
    let len: usize = body.len();
    proof {
        let none = arg_views(args@);
        lead_types_none(none, kinds@);
        lead_body_none(endian, kinds@, body@, none);
        assert(kinds@.skip(0) =~= kinds@);
        if let Some(rest) = args_from(endian, kinds@, body@, 0) {
            assert(none + rest =~= rest);
        }
        assert forall|written: Seq<ArgView>|
            readable_args(written) && fits_args(endian, written) && kinds@ == kinds_of_args(written)
                && body@ == #[trigger] body_bytes(endian, written) implies holds(
            endian,
            kinds@,
            body@,
            written,
        ) by {
            reveal(holds);
        }
    }
    while i < kinds.len()
        invariant
            i <= kinds@.len(),
            len == body@.len(),
            args@.len() == i,
            lead_types(arg_views(args@), kinds@),
            lead_body(endian, kinds@, body@, arg_views(args@), at as nat),
            args_from(endian, kinds@, body@, 0) == joined(
                arg_views(args@),
                args_from(endian, kinds@.skip(i as int), body@, at as nat),
            ),
            forall|written: Seq<ArgView>|
                readable_args(written) && fits_args(endian, written) && kinds@ == kinds_of_args(
                    written,
                ) && body@ == #[trigger] body_bytes(endian, written) ==> holds(
                    endian,
                    kinds@,
                    body@,
                    written,
                ),
        decreases kinds@.len() - i,
    {
        let ghost before = arg_views(args@);
        if at > len as u128 {
            proof {
                nothing_held(endian, kinds@, body@, before, at as nat);
            }
            return None;
        }
        let rest = vstd::slice::slice_subrange(body, at as usize, len);
        assert(rest@ =~= body@.skip(at as int));
        let (arg, n): (Arg, usize) = match decode_arg(endian, kinds[i], at as usize, rest) {
            Some(read) => read,
            None => {
                proof {
                    nothing_held(endian, kinds@, body@, before, at as nat);
                    assert(kinds@.skip(i as int)[0] == kinds@[i as int]);
                }
                return None;
            },
        };
        proof {
            lead_types_grow(before, arg@, kinds@);
            lead_body_grows(endian, kinds@, body@, before, at as nat, arg@, n as nat);
            args_from_next(endian, kinds@, body@, before, at as nat, arg@, n as nat);
            assert(arg_views(args@.push(arg)) =~= before.push(arg@));
        }
        args.push(arg);
        at = at + n as u128;
        i = i + 1;
    }
    proof {
        let all = arg_views(args@);
        lead_types_whole(all, kinds@);
        assert(kinds@.skip(i as int) =~= seq![]);
        assert(all + Seq::<ArgView>::empty() =~= all);
        assert forall|written: Seq<ArgView>| #[trigger]
            holds(endian, kinds@, body@, written) implies all == written by {
            reveal(lead_body);
            reveal(holds);
            assert(written.len() == kinds_of_args(written).len());
            assert(written.take(i as int) =~= written);
        }
    }
    Some(args)
}

// ---------------------------------------------------------------------------
// Bodies of other types
// ---------------------------------------------------------------------------
/// Whether `zvariant` reads values of the types in `signature` from `body`.
pub uninterp spec fn reads_as(endian: Endian, signature: Seq<char>, body: Seq<u8>) -> bool;

/// Calls `zvariant::serialized::Data::deserialize_for_signature` for values that
/// are not looked into. Whether it succeeds is named by [`reads_as`]. It follows
/// the signature through the bytes; it does not tell whether an object path is
/// valid, and there are no file descriptors that it could find.
#[verifier::external_body]
fn skim_body(endian: Endian, signature: &str, body: &[u8]) -> (reads: bool)
    ensures
        reads == reads_as(endian, signature@, body@),
{
    let order = if endian == Endian::Big { BE } else { LE };
    let data = Data::new(body, Context::new_dbus(order, 0));
    data.deserialize_for_signature::<&str, IgnoredAny>(signature).is_ok()
}

/// The arguments in a body of the types in `signature`. A body with a value of a
/// type that has no argument of its own is one encoded argument.
pub open spec fn args_in(endian: Endian, signature: Seq<char>, body: Seq<u8>) -> Option<
    Seq<ArgView>,
> {
    match kinds_of(signature) {
        Some(kinds) => args_from(endian, kinds, body, 0),
        None => encoded_body(signature, body, reads_as(endian, signature, body)),
    }
}

/// A body of other types, given whether it is one.
pub open spec fn encoded_body(signature: Seq<char>, body: Seq<u8>, reads: bool) -> Option<
    Seq<ArgView>,
> {
    if reads {
        Some(seq![ArgView::Encoded { code: signature, bytes: body }])
    } else {
        None
    }
}

/// Hands a body of other types on as it stands, where it is one.
pub fn carry_body(signature: &str, body: &[u8], reads: bool) -> (args: Option<Vec<Arg>>)
    ensures
        args_view(args) == encoded_body(signature@, body@, reads),
{
    if !reads {
        return None;
    }
    let mut args: Vec<Arg> = Vec::new();
    let bytes: Vec<u8> = copy_range(body, 0, body.len());
    assert(bytes@ =~= body@);
    args.push(Arg::Encoded { code: signature.to_owned(), bytes });
    assert(arg_views(args@) =~= seq![ArgView::Encoded { code: signature@, bytes: body@ }]);
    Some(args)
}

/// Whether the arguments are of the types in `signature`, where each of those has
/// an argument of its own.
pub open spec fn of_types(args: Seq<ArgView>, signature: Seq<char>) -> bool {
    kinds_of(signature) matches Some(kinds) ==> kinds_of_args(args) == kinds
}

/// Reads the arguments in a body. Arguments that were written are read back.
pub fn decode_by_signature(endian: Endian, signature: &str, body: &[u8]) -> (args: Option<Vec<Arg>>)
    ensures
        args_view(args) == args_in(endian, signature@, body@),
        args matches Some(a) ==> of_types(arg_views(a@), signature@),
        forall|written: Seq<ArgView>|
            readable_args(written) && fits_args(endian, written) && signature@ == body_signature(
                written,
            ) && body@ == #[trigger] body_bytes(endian, written) ==> args_view(args) == Some(
                written,
            ),
{
    proof {
        assert forall|written: Seq<ArgView>|
            #![trigger body_bytes(endian, written)]
            readable_args(written) && signature@ == body_signature(written) implies kinds_of(
            signature@,
        ) == Some(kinds_of_args(written)) by {
            assert forall|i: int| 0 <= i < written.len() implies !((
            #[trigger] written[i]) is Encoded) by {
                assert(readable_arg(written[i]));
            }
            signature_round_trip(written);
        }
    }
    match parse_signature(signature) {
        Some(kinds) => decode_args(endian, &kinds, body),
        None => carry_body(signature, body, skim_body(endian, signature, body)),
    }
}

} // verus!
