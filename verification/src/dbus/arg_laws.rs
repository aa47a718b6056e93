//! What holds of signatures and of the arguments in a body.

use vstd::prelude::*;

use super::args::{
    arg_at, arg_bytes, arg_code, args_from, args_in, body_bytes, body_signature, bytes_at,
    first_kind, kind_code, kind_of_arg, kinds_of, number_at, pairs_decoding, text_at, ArgKind,
    ArgView,
};
use super::endian::Endian;
use super::frame::{args_of, FrameView};

verus! {

/// The codes of the types that arguments have.
pub proof fn type_codes()
    ensures
        kind_code(ArgKind::U8) == seq!['y'],
        kind_code(ArgKind::Bool) == seq!['b'],
        kind_code(ArgKind::I16) == seq!['n'],
        kind_code(ArgKind::U16) == seq!['q'],
        kind_code(ArgKind::I32) == seq!['i'],
        kind_code(ArgKind::U32) == seq!['u'],
        kind_code(ArgKind::I64) == seq!['x'],
        kind_code(ArgKind::U64) == seq!['t'],
        kind_code(ArgKind::Double) == seq!['d'],
        kind_code(ArgKind::Str) == seq!['s'],
        kind_code(ArgKind::ObjectPath) == seq!['o'],
        kind_code(ArgKind::Bytes) == seq!['a', 'y'],
        kind_code(ArgKind::StrPairs) == seq!['a', '(', 's', 's', ')'],
        kind_code(ArgKind::StrI32Pairs) == seq!['a', '(', 's', 'i', ')'],
{
}

/// The codes of types in a row.
pub open spec fn codes_of(kinds: Seq<ArgKind>) -> Seq<char>
    decreases kinds.len(),
{
    if kinds.len() == 0 {
        seq![]
    } else {
        kind_code(kinds[0]) + codes_of(kinds.skip(1))
    }
}

/// The type that leads a signature is the one whose code it starts with.
proof fn leading_code(s: Seq<char>, kind: ArgKind)
    ensures
        first_kind(s) == Some(kind) <==> kind != ArgKind::Other && s.len() >= kind_code(kind).len()
            && s.take(kind_code(kind).len() as int) == kind_code(kind),
{
    let n = kind_code(kind).len() as int;
    if s.len() >= n && kind != ArgKind::Other {
        let lead = s.take(n);
        assert(lead[0] == s[0]);
        if n > 1 {
            assert(lead[1] == s[1]);
        }
        if n > 2 {
            assert(lead[2] == s[2] && lead[3] == s[3] && lead[4] == s[4]);
        }
        if first_kind(s) == Some(kind) {
            assert(lead =~= kind_code(kind));
        }
    }
}

/// A signature names types exactly where it is made of their codes in a row.
pub proof fn signatures_are_codes_in_a_row(s: Seq<char>, kinds: Seq<ArgKind>)
    ensures
        kinds_of(s) == Some(kinds) <==> s == codes_of(kinds) && forall|i: int|
            0 <= i < kinds.len() ==> #[trigger] kinds[i] != ArgKind::Other,
    decreases s.len(),
{
    if s.len() == 0 {
        if kinds.len() > 0 && s == codes_of(kinds) && kinds[0] != ArgKind::Other {
            assert(kind_code(kinds[0]).len() > 0);
            assert(false);
        }
        if kinds.len() == 0 {
            assert(kinds =~= seq![]);
            assert(s =~= seq![]);
        }
    } else if kinds.len() > 0 {
        let kind = kinds[0];
        let n = kind_code(kind).len() as int;
        leading_code(s, kind);
        if kind != ArgKind::Other && s.len() >= n && s.take(n) == kind_code(kind) {
            let rest = s.skip(n);
            signatures_are_codes_in_a_row(rest, kinds.skip(1));
            assert(s =~= s.take(n) + rest);
            assert(kinds =~= seq![kind] + kinds.skip(1));
            if s == codes_of(kinds) {
                assert(rest =~= codes_of(kinds.skip(1)));
            }
            if forall|i: int| 0 <= i < kinds.len() ==> #[trigger] kinds[i] != ArgKind::Other {
                assert forall|i: int| 0 <= i < kinds.skip(1).len() implies #[trigger] kinds.skip(
                    1,
                )[i] != ArgKind::Other by {
                    assert(kinds.skip(1)[i] == kinds[i + 1]);
                }
            }
            if forall|i: int|
                0 <= i < kinds.skip(1).len() ==> #[trigger] kinds.skip(1)[i] != ArgKind::Other {
                assert forall|i: int| 0 <= i < kinds.len() implies #[trigger] kinds[i]
                    != ArgKind::Other by {
                    if i > 0 {
                        assert(kinds[i] == kinds.skip(1)[i - 1]);
                    }
                }
            }
            if let Some(found) = kinds_of(rest) {
                assert((seq![kind] + found).skip(1) =~= found);
            }
        } else {
            if s == codes_of(kinds) {
                assert(s.take(n) =~= kind_code(kind));
            }
            if kinds_of(s) == Some(kinds) {
                let first = first_kind(s)->Some_0;
                let found = kinds_of(s.skip(kind_code(first).len() as int))->Some_0;
                assert((seq![first] + found)[0] == first);
            }
        }
    } else if kinds_of(s) is Some {
        let first = first_kind(s)->Some_0;
        let found = kinds_of(s.skip(kind_code(first).len() as int))->Some_0;
        assert((seq![first] + found).len() > 0);
    }
}

/// The arguments of a body stand one behind the other, each read by its type
/// from where the one before it ends. What follows the last does not matter.
pub proof fn arguments_stand_in_a_row(
    endian: Endian,
    kinds: Seq<ArgKind>,
    body: Seq<u8>,
    at: nat,
)
    ensures
        kinds.len() == 0 ==> args_from(endian, kinds, body, at) == Some(Seq::<ArgView>::empty()),
        kinds.len() > 0 && at <= body.len() ==> {
            let first = arg_at(endian, kinds[0], at, body.skip(at as int));
            let all = args_from(endian, kinds, body, at);
            &&& all is Some <==> first is Some && args_from(
                endian,
                kinds.skip(1),
                body,
                at + first->Some_0.1,
            ) is Some
            &&& all is Some ==> {
                &&& all->Some_0.len() > 0
                &&& all->Some_0[0] == first->Some_0.0
                &&& all->Some_0.skip(1) == args_from(
                    endian,
                    kinds.skip(1),
                    body,
                    at + first->Some_0.1,
                )->Some_0
            }
        },
{
    if kinds.len() > 0 && at <= body.len() {
        if let Some((arg, n)) = arg_at(endian, kinds[0], at, body.skip(at as int)) {
            if let Some(rest) = args_from(endian, kinds.skip(1), body, at + n) {
                assert((seq![arg] + rest).skip(1) =~= rest);
            }
        }
    }
}

/// How an argument is read, by its type.
pub proof fn arguments_are_read_by_type(endian: Endian, at: nat, bytes: Seq<u8>)
    ensures
        arg_at(endian, ArgKind::U8, at, bytes) == number_at(endian, ArgKind::U8, at, bytes),
        arg_at(endian, ArgKind::Bool, at, bytes) == number_at(endian, ArgKind::Bool, at, bytes),
        arg_at(endian, ArgKind::I16, at, bytes) == number_at(endian, ArgKind::I16, at, bytes),
        arg_at(endian, ArgKind::U16, at, bytes) == number_at(endian, ArgKind::U16, at, bytes),
        arg_at(endian, ArgKind::I32, at, bytes) == number_at(endian, ArgKind::I32, at, bytes),
        arg_at(endian, ArgKind::U32, at, bytes) == number_at(endian, ArgKind::U32, at, bytes),
        arg_at(endian, ArgKind::I64, at, bytes) == number_at(endian, ArgKind::I64, at, bytes),
        arg_at(endian, ArgKind::U64, at, bytes) == number_at(endian, ArgKind::U64, at, bytes),
        arg_at(endian, ArgKind::Double, at, bytes) == number_at(endian, ArgKind::Double, at, bytes),
        arg_at(endian, ArgKind::Str, at, bytes) == text_at(endian, ArgKind::Str, at, bytes),
        arg_at(endian, ArgKind::ObjectPath, at, bytes) == text_at(
            endian,
            ArgKind::ObjectPath,
            at,
            bytes,
        ),
        arg_at(endian, ArgKind::Bytes, at, bytes) == bytes_at(endian, at, bytes),
        arg_at(endian, ArgKind::StrPairs, at, bytes) == pairs_decoding(
            endian,
            ArgKind::StrPairs,
            at,
            bytes,
        ),
        arg_at(endian, ArgKind::StrI32Pairs, at, bytes) == pairs_decoding(
            endian,
            ArgKind::StrI32Pairs,
            at,
            bytes,
        ),
{
}

/// A body is read by the signature in the header fields, in the byte order of
/// its frame, from its start. Without a signature nothing is read.
pub proof fn bodies_are_read_by_their_signature(f: FrameView)
    ensures
        f.fields.signature is None ==> args_of(f) is None,
        f.fields.signature matches Some(s) ==> args_of(f) == args_in(f.endian, s, f.body),
        f.fields.signature matches Some(s) ==> (kinds_of(s) matches Some(kinds) ==> args_of(f)
            == args_from(f.endian, kinds, f.body, 0)),
{
}

/// A body is its arguments one behind the other, and its signature their codes.
/// Values that come encoded are written as they are.
pub proof fn bodies_are_arguments_in_a_row(
    endian: Endian,
    args: Seq<ArgView>,
    arg: ArgView,
    code: Seq<char>,
    bytes: Seq<u8>,
    at: nat,
)
    ensures
        body_bytes(endian, seq![]) == Seq::<u8>::empty(),
        body_signature(seq![]) == Seq::<char>::empty(),
        body_bytes(endian, args.push(arg)) == body_bytes(endian, args) + arg_bytes(
            endian,
            body_bytes(endian, args).len(),
            arg,
        ),
        body_signature(args.push(arg)) == body_signature(args) + arg_code(arg),
        arg_code(ArgView::Encoded { code, bytes }) == code,
        arg_bytes(endian, at, ArgView::Encoded { code, bytes }) == bytes,
        !(arg is Encoded) ==> arg_code(arg) == kind_code(kind_of_arg(arg)),
{
    assert(args.push(arg).drop_last() =~= args);
}

} // verus!
