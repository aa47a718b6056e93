//! What holds of header fields and frames as a whole.

use vstd::prelude::*;

use super::fields::{
    fields_count, fields_of, kept_fields, raw_field, raw_of, FieldsView,
};
use super::fields::{number_value, path_value, signature_value, text_value};
use super::marshal::{is_object_path, FieldValueView, RawFieldView};
use super::sasl::{begin_end, begins_at, first_begin_end, SaslError};

verus! {

// ---------------------------------------------------------------------------
// Reading header fields
// ---------------------------------------------------------------------------
/// The string in a raw value, if it is one.
pub open spec fn string_in(value: Option<FieldValueView>) -> Option<Seq<char>> {
    match value {
        Some(FieldValueView::Str(s)) => Some(s),
        _ => None,
    }
}

/// The number in a raw value, if it is one.
pub open spec fn u32_in(value: Option<FieldValueView>) -> Option<u32> {
    match value {
        Some(FieldValueView::U32(n)) => Some(n),
        _ => None,
    }
}

/// A field is told by its code, wherever it stands: the last of the raw fields
/// with the code of a text or of a number decides alone, whatever other fields
/// stand around it.
pub proof fn the_last_of_a_code_decides(raw: Seq<RawFieldView>, i: int)
    requires
        0 <= i < raw.len(),
        forall|j: int| i < j < raw.len() ==> (#[trigger] raw[j]).0 != raw[i].0,
    ensures
        raw[i].0 == 2 ==> fields_of(raw).interface == string_in(raw[i].1),
        raw[i].0 == 3 ==> fields_of(raw).member == string_in(raw[i].1),
        raw[i].0 == 4 ==> fields_of(raw).error_name == string_in(raw[i].1),
        raw[i].0 == 5 ==> fields_of(raw).reply_serial == u32_in(raw[i].1),
        raw[i].0 == 6 ==> fields_of(raw).destination == string_in(raw[i].1),
        raw[i].0 == 7 ==> fields_of(raw).sender == string_in(raw[i].1),
        raw[i].0 == 9 ==> fields_of(raw).unix_fds == u32_in(raw[i].1),
    decreases raw.len(),
{
    let front = raw.drop_last();
    if i < raw.len() - 1 {
        assert forall|j: int| i < j < front.len() implies (#[trigger] front[j]).0 != front[i].0 by {
            assert(front[j] == raw[j]);
        }
        the_last_of_a_code_decides(front, i);
        assert(raw[raw.len() - 1].0 != raw[i].0);
    }
}

/// Whether a raw field is a path: its code is that of the path, and its value an
/// object path.
pub open spec fn is_path_field(e: RawFieldView) -> bool {
    e.0 == 1 && e.1 is Some && e.1->Some_0 is ObjectPath
}

/// Whether a raw field is a signature, by its code and its value.
pub open spec fn is_signature_field(e: RawFieldView) -> bool {
    e.0 == 8 && e.1 is Some && e.1->Some_0 is Signature
}

/// The last raw field that is a path decides on the path; one with a value of
/// another type is passed over.
pub proof fn the_last_path_decides(raw: Seq<RawFieldView>, i: int, path: Seq<char>)
    requires
        0 <= i < raw.len(),
        raw[i] == (1u8, Some(FieldValueView::ObjectPath(path))),
        forall|j: int| i < j < raw.len() ==> !is_path_field(#[trigger] raw[j]),
    ensures
        fields_of(raw).path == Some(path),
    decreases raw.len(),
{
    let front = raw.drop_last();
    if i < raw.len() - 1 {
        assert forall|j: int| i < j < front.len() implies !is_path_field(#[trigger] front[j]) by {
            assert(front[j] == raw[j]);
        }
        the_last_path_decides(front, i, path);
        assert(!is_path_field(raw[raw.len() - 1]));
    }
}

/// The last raw field that is a signature decides on the signature; one with a
/// value of another type is passed over.
pub proof fn the_last_signature_decides(raw: Seq<RawFieldView>, i: int, signature: Seq<char>)
    requires
        0 <= i < raw.len(),
        raw[i] == (8u8, Some(FieldValueView::Signature(signature))),
        forall|j: int| i < j < raw.len() ==> !is_signature_field(#[trigger] raw[j]),
    ensures
        fields_of(raw).signature == Some(signature),
    decreases raw.len(),
{
    let front = raw.drop_last();
    if i < raw.len() - 1 {
        assert forall|j: int| i < j < front.len() implies !is_signature_field(
            #[trigger] front[j],
        ) by {
            assert(front[j] == raw[j]);
        }
        the_last_signature_decides(front, i, signature);
        assert(!is_signature_field(raw[raw.len() - 1]));
    }
}

/// A field that no raw field names is absent.
pub proof fn what_is_not_named_is_absent(raw: Seq<RawFieldView>, code: u8)
    requires
        forall|j: int| 0 <= j < raw.len() ==> (#[trigger] raw[j]).0 != code,
    ensures
        code == 1 ==> fields_of(raw).path is None,
        code == 2 ==> fields_of(raw).interface is None,
        code == 3 ==> fields_of(raw).member is None,
        code == 4 ==> fields_of(raw).error_name is None,
        code == 5 ==> fields_of(raw).reply_serial is None,
        code == 6 ==> fields_of(raw).destination is None,
        code == 7 ==> fields_of(raw).sender is None,
        code == 8 ==> fields_of(raw).signature is None,
        code == 9 ==> fields_of(raw).unix_fds is None,
    decreases raw.len(),
{
    if raw.len() > 0 {
        let front = raw.drop_last();
        assert forall|j: int| 0 <= j < front.len() implies (#[trigger] front[j]).0 != code by {
            assert(front[j] == raw[j]);
        }
        what_is_not_named_is_absent(front, code);
        assert(raw[raw.len() - 1].0 != code);
    }
}

/// A path or signature field of another type than its own leaves none.
pub proof fn mistyped_paths_and_signatures_are_absent(raw: Seq<RawFieldView>)
    ensures
        (forall|j: int| 0 <= j < raw.len() ==> !is_path_field(#[trigger] raw[j])) ==> fields_of(
            raw,
        ).path is None,
        (forall|j: int| 0 <= j < raw.len() ==> !is_signature_field(#[trigger] raw[j]))
            ==> fields_of(raw).signature is None,
    decreases raw.len(),
{
    if raw.len() > 0 {
        let front = raw.drop_last();
        mistyped_paths_and_signatures_are_absent(front);
        assert forall|j: int| 0 <= j < front.len() implies #[trigger] front[j] == raw[j] by {}
        let last = raw[raw.len() - 1];
        assert(raw.last() == last);
    }
}

// ---------------------------------------------------------------------------
// Writing header fields
// ---------------------------------------------------------------------------
/// Whether the codes of raw fields grow, and stay below `bound`.
pub open spec fn codes_grow(raw: Seq<RawFieldView>, bound: int) -> bool {
    &&& forall|i: int| 0 <= i < raw.len() ==> (#[trigger] raw[i]).0 < bound
    &&& forall|i: int, j: int|
        0 <= i < j < raw.len() ==> (#[trigger] raw[i]).0 < (#[trigger] raw[j]).0
}

/// One more field with a larger code.
proof fn codes_grow_by(raw: Seq<RawFieldView>, code: u8, value: Option<FieldValueView>)
    requires
        codes_grow(raw, code as int),
    ensures
        ({
            let all = raw + raw_field(code, value);
            &&& codes_grow(all, code + 1)
            &&& all.len() == raw.len() + if value is Some {
                1nat
            } else {
                0
            }
            &&& forall|e: RawFieldView| #[trigger]
                all.contains(e) <==> raw.contains(e) || (value is Some && e == (code, value))
        }),
{
    let all = raw + raw_field(code, value);
    if value is Some {
        assert(all =~= raw.push((code, value)));
        assert(all[raw.len() as int] == (code, value));
        assert forall|e: RawFieldView| #[trigger] all.contains(e) <==> raw.contains(e) || e == (
            code,
            value,
        ) by {
            if raw.contains(e) {
                let i = choose|i: int| 0 <= i < raw.len() && raw[i] == e;
                assert(all[i] == e);
            }
            if all.contains(e) {
                let i = choose|i: int| 0 <= i < all.len() && all[i] == e;
                if i < raw.len() {
                    assert(raw[i] == e);
                }
            }
        }
    } else {
        assert(all =~= raw);
    }
}

/// Whether `e` is written for one of the fields: each by its code, with a value
/// of its type. A path that is not a valid object path is not written.
pub open spec fn is_written(fields: FieldsView, e: RawFieldView) -> bool {
    ||| e.0 == 1 && (fields.path matches Some(p) && is_object_path(p) && e.1 == Some(
        FieldValueView::ObjectPath(p),
    ))
    ||| e.0 == 2 && (fields.interface matches Some(s) && e.1 == Some(FieldValueView::Str(s)))
    ||| e.0 == 3 && (fields.member matches Some(s) && e.1 == Some(FieldValueView::Str(s)))
    ||| e.0 == 4 && (fields.error_name matches Some(s) && e.1 == Some(FieldValueView::Str(s)))
    ||| e.0 == 5 && (fields.reply_serial matches Some(n) && e.1 == Some(FieldValueView::U32(n)))
    ||| e.0 == 6 && (fields.destination matches Some(s) && e.1 == Some(FieldValueView::Str(s)))
    ||| e.0 == 7 && (fields.sender matches Some(s) && e.1 == Some(FieldValueView::Str(s)))
    ||| e.0 == 8 && (fields.signature matches Some(s) && e.1 == Some(FieldValueView::Signature(s)))
    ||| e.0 == 9 && (fields.unix_fds matches Some(n) && e.1 == Some(FieldValueView::U32(n)))
}

/// Each field that is there is written once, with its code and its value, and
/// nothing else is.
pub proof fn each_field_is_written_once(fields: FieldsView)
    ensures
        codes_grow(raw_of(fields), 10),
        raw_of(fields).no_duplicates(),
        forall|e: RawFieldView| #[trigger] raw_of(fields).contains(e) <==> is_written(fields, e),
        raw_of(fields).len() == fields_count(kept_fields(fields)),
{
    reveal(raw_of);
    let r0: Seq<RawFieldView> = seq![];
    let r1 = raw_field(1, path_value(fields.path));
    assert(r0 + r1 =~= r1);
    codes_grow_by(r0, 1, path_value(fields.path));
    codes_grow_by(r1, 2, text_value(fields.interface));
    let r2 = r1 + raw_field(2, text_value(fields.interface));
    codes_grow_by(r2, 3, text_value(fields.member));
    let r3 = r2 + raw_field(3, text_value(fields.member));
    codes_grow_by(r3, 4, text_value(fields.error_name));
    let r4 = r3 + raw_field(4, text_value(fields.error_name));
    codes_grow_by(r4, 5, number_value(fields.reply_serial));
    let r5 = r4 + raw_field(5, number_value(fields.reply_serial));
    codes_grow_by(r5, 6, text_value(fields.destination));
    let r6 = r5 + raw_field(6, text_value(fields.destination));
    codes_grow_by(r6, 7, text_value(fields.sender));
    let r7 = r6 + raw_field(7, text_value(fields.sender));
    codes_grow_by(r7, 8, signature_value(fields.signature));
    let r8 = r7 + raw_field(8, signature_value(fields.signature));
    codes_grow_by(r8, 9, number_value(fields.unix_fds));
    let raw = raw_of(fields);
    assert(raw == r8 + raw_field(9, number_value(fields.unix_fds)));
    assert forall|i: int, j: int| 0 <= i < raw.len() && 0 <= j < raw.len() && i != j implies raw[i]
        != raw[j] by {
        if i < j {
            assert(raw[i].0 < raw[j].0);
        } else {
            assert(raw[j].0 < raw[i].0);
        }
    }
}

/// Fields are read back from their raw fields in whatever order a peer has
/// written them.
pub proof fn any_order_reads_back(fields: FieldsView, raw: Seq<RawFieldView>)
    requires
        raw.to_multiset() == raw_of(fields).to_multiset(),
    ensures
        fields_of(raw) == kept_fields(fields),
{
    let own = raw_of(fields);
    each_field_is_written_once(fields);
    raw.to_multiset_ensures();
    own.to_multiset_ensures();
    assert forall|e: RawFieldView| #[trigger] raw.contains(e) <==> is_written(fields, e) by {
        assert(raw.contains(e) <==> raw.to_multiset().count(e) > 0);
        assert(own.contains(e) <==> own.to_multiset().count(e) > 0);
    }
    own.lemma_multiset_has_no_duplicates();
    raw.lemma_multiset_has_no_duplicates_conv();
    assert forall|i: int, j: int| 0 <= i < raw.len() && 0 <= j < raw.len() && i != j implies (
    #[trigger] raw[i]).0 != (#[trigger] raw[j]).0 by {
        assert(raw.contains(raw[i]));
        assert(raw.contains(raw[j]));
        assert(raw[i] != raw[j]);
    }
    read_one(fields, raw, 1, path_value(fields.path));
    read_one(fields, raw, 2, text_value(fields.interface));
    read_one(fields, raw, 3, text_value(fields.member));
    read_one(fields, raw, 4, text_value(fields.error_name));
    read_one(fields, raw, 5, number_value(fields.reply_serial));
    read_one(fields, raw, 6, text_value(fields.destination));
    read_one(fields, raw, 7, text_value(fields.sender));
    read_one(fields, raw, 8, signature_value(fields.signature));
    read_one(fields, raw, 9, number_value(fields.unix_fds));
    assert(fields_of(raw) =~= kept_fields(fields));
}

/// One of the fields is read where each is there once.
proof fn read_one(fields: FieldsView, raw: Seq<RawFieldView>, code: u8, value: Option<FieldValueView>)
    requires
        forall|e: RawFieldView| #[trigger] raw.contains(e) <==> is_written(fields, e),
        forall|i: int, j: int|
            0 <= i < raw.len() && 0 <= j < raw.len() && i != j ==> (#[trigger] raw[i]).0 != (
            #[trigger] raw[j]).0,
        value is Some ==> is_written(fields, (code, value)),
        value is None ==> forall|e: RawFieldView| #[trigger] is_written(fields, e) ==> e.0 != code,
    ensures
        code == 1 ==> match value {
            Some(FieldValueView::ObjectPath(p)) => fields_of(raw).path == Some(p),
            Some(_) => true,
            None => fields_of(raw).path is None,
        },
        code == 2 ==> fields_of(raw).interface == string_in(value),
        code == 3 ==> fields_of(raw).member == string_in(value),
        code == 4 ==> fields_of(raw).error_name == string_in(value),
        code == 5 ==> fields_of(raw).reply_serial == u32_in(value),
        code == 6 ==> fields_of(raw).destination == string_in(value),
        code == 7 ==> fields_of(raw).sender == string_in(value),
        code == 8 ==> match value {
            Some(FieldValueView::Signature(s)) => fields_of(raw).signature == Some(s),
            Some(_) => true,
            None => fields_of(raw).signature is None,
        },
        code == 9 ==> fields_of(raw).unix_fds == u32_in(value),
{
    if value is Some {
        assert(raw.contains((code, value)));
        let i = choose|i: int| 0 <= i < raw.len() && raw[i] == (code, value);
        assert forall|j: int| i < j < raw.len() implies (#[trigger] raw[j]).0 != raw[i].0 by {}
        the_last_of_a_code_decides(raw, i);
        if let Some(FieldValueView::ObjectPath(p)) = value {
            if code == 1 {
                the_last_path_decides(raw, i, p);
            }
        }
        if let Some(FieldValueView::Signature(s)) = value {
            if code == 8 {
                the_last_signature_decides(raw, i, s);
            }
        }
    } else {
        assert forall|j: int| 0 <= j < raw.len() implies (#[trigger] raw[j]).0 != code by {
            assert(raw.contains(raw[j]));
        }
        what_is_not_named_is_absent(raw, code);
    }
}

/// Only a path that is not a valid object path is left out of what is written.
pub proof fn only_an_invalid_path_is_left_out(fields: FieldsView)
    ensures
        fields.path matches Some(p) ==> kept_fields(fields).path == if is_object_path(p) {
            Some(p)
        } else {
            None
        },
        fields.path is None ==> kept_fields(fields).path is None,
        kept_fields(fields).interface == fields.interface,
        kept_fields(fields).member == fields.member,
        kept_fields(fields).error_name == fields.error_name,
        kept_fields(fields).destination == fields.destination,
        kept_fields(fields).sender == fields.sender,
        kept_fields(fields).signature == fields.signature,
        kept_fields(fields).reply_serial == fields.reply_serial,
        kept_fields(fields).unix_fds == fields.unix_fds,
{
}

// ---------------------------------------------------------------------------
// Handshakes
// ---------------------------------------------------------------------------
/// Whether the bytes of `BEGIN\r\n` stand at `at`.
pub open spec fn begin_stands_at(buf: Seq<u8>, at: int) -> bool {
    &&& 0 <= at
    &&& at + 7 <= buf.len()
    &&& buf[at] == 'B' as u8
    &&& buf[at + 1] == 'E' as u8
    &&& buf[at + 2] == 'G' as u8
    &&& buf[at + 3] == 'I' as u8
    &&& buf[at + 4] == 'N' as u8
    &&& buf[at + 5] == 13
    &&& buf[at + 6] == 10
}

/// The two ways to say that the line stands somewhere.
proof fn begin_line_stands(buf: Seq<u8>, at: int)
    ensures
        begins_at(buf, at) <==> begin_stands_at(buf, at),
{
    if 0 <= at && at + 7 <= buf.len() {
        let part = buf.subrange(at, at + 7);
        assert(part[0] == buf[at] && part[1] == buf[at + 1] && part[2] == buf[at + 2] && part[3]
            == buf[at + 3] && part[4] == buf[at + 4] && part[5] == buf[at + 5] && part[6] == buf[at
            + 6]);
        if begin_stands_at(buf, at) {
            assert(part =~= super::sasl::begin_line());
        }
    }
}

/// The first line from `from` on.
proof fn first_begin(buf: Seq<u8>, from: nat)
    ensures
        match first_begin_end(buf, from) {
            Some(end) => {
                &&& from + 7 <= end
                &&& begin_stands_at(buf, end - 7)
                &&& forall|at: int| from <= at < end - 7 ==> !#[trigger] begin_stands_at(buf, at)
            },
            None => forall|at: int| from <= at ==> !#[trigger] begin_stands_at(buf, at),
        },
    decreases buf.len() - from,
{
    if from + 7 <= buf.len() {
        begin_line_stands(buf, from as int);
        if !begins_at(buf, from as int) {
            first_begin(buf, from + 1);
        }
    }
}

/// A handshake starts with NUL and ends with its first `BEGIN\r\n`, within 16
/// KiB. Anything else is refused, or may still become one.
pub proof fn handshakes_end_with_begin(buf: Seq<u8>, end: nat)
    requires
        buf.len() > 0,
    ensures
        begin_end(buf) == Ok::<Option<nat>, SaslError>(Some(end)) <==> {
            &&& buf[0] == 0
            &&& 7 <= end <= 16384
            &&& begin_stands_at(buf, end - 7)
            &&& forall|at: int| 0 <= at < end - 7 ==> !#[trigger] begin_stands_at(buf, at)
        },
        begin_end(buf) == Err::<Option<nat>, SaslError>(SaslError::MissingNulPrefix) <==> buf[0]
            != 0,
        begin_end(buf) == Err::<Option<nat>, SaslError>(SaslError::HandshakeTooLong) <==> {
            &&& buf[0] == 0
            &&& buf.len() > 16384
            &&& forall|at: int|
                0 <= at && at + 7 <= 16384 ==> !#[trigger] begin_stands_at(buf, at)
        },
        begin_end(buf) == Ok::<Option<nat>, SaslError>(None) <==> {
            &&& buf[0] == 0
            &&& buf.len() <= 16384
            &&& forall|at: int| 0 <= at ==> !#[trigger] begin_stands_at(buf, at)
        },
        begin_end(seq![]) == Ok::<Option<nat>, SaslError>(None),
{
    first_begin(buf, 0);
    if let Some(first) = first_begin_end(buf, 0) {
        if buf[0] == 0 && 7 <= end && begin_stands_at(buf, end - 7) && (forall|at: int|
            0 <= at < end - 7 ==> !#[trigger] begin_stands_at(buf, at)) {
            assert(first == end);
        }
        assert(begin_stands_at(buf, first - 7));
    }
}

} // verus!
