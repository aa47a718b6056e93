//! Rewriting of observed messages before they are forwarded.

use vstd::prelude::*;

use super::laws::tiled;
use super::state::{observed_views, ObservedView, Output, OutputView};
use crate::rules::cursor::{
    self, moved_in, moved_message, translation_is_undone, translation_moves_coordinates_only,
};
use crate::dbus::endian::wrapped;

verus! {

/// Whether a message lies within the forwarded bytes.
pub open spec fn within(m: ObservedView, len: nat) -> bool {
    m.offset + m.length <= len
}

/// The forwarded bytes with the coordinates of each message moved by `delta`. A
/// message that does not lie within them is passed over.
pub open spec fn rewritten(forward: Seq<u8>, messages: Seq<ObservedView>, delta: (i32, i32)) -> Seq<
    u8,
>
    decreases messages.len(),
{
    if messages.len() == 0 {
        forward
    } else {
        let front = rewritten(forward, messages.drop_last(), delta);
        let m = messages.last();
        if within(m, forward.len()) {
            moved_in(front, m.offset as int, (m.offset + m.length) as int, m.header, delta)
        } else {
            front
        }
    }
}

/// Moves the cursor coordinates in the observed messages by `delta`, in place.
pub fn apply_cursor_rewrites(out: &mut Output, delta: (i32, i32))
    ensures
        final(out)@ == (OutputView {
            forward: rewritten(old(out)@.forward, old(out)@.messages, delta),
            ..old(out)@
        }),
        final(out)@.forward.len() == old(out)@.forward.len(),
{
    let ghost before = out@;
    let mut i: usize = 0;
    assert(before.messages.take(0) =~= seq![]);
    while i < out.messages.len()
        invariant
            i <= out.messages@.len(),
            before == old(out)@,
            out@.messages == before.messages,
            out.forward@ == rewritten(before.forward, before.messages.take(i as int), delta),
            out.forward@.len() == before.forward.len(),
        decreases out.messages@.len() - i,
    {
        let ghost m = out.messages@[i as int]@;
        assert(m == before.messages[i as int]) by {
            assert(observed_views(out.messages@)[i as int] == m);
        }
        assert(before.messages.take(i + 1).drop_last() =~= before.messages.take(i as int));
        assert(before.messages.take(i + 1).last() == m);
        let from: usize = out.messages[i].offset;
        let length: usize = out.messages[i].length;
        if from <= out.forward.len() && length <= out.forward.len() - from {
            let header = out.messages[i].header.clone();
            cursor::rewrite(&header, &mut out.forward, from, from + length, delta);
        }
        i = i + 1;
    }
    assert(before.messages.take(before.messages.len() as int) =~= before.messages);
}

/// The bytes of a message among those that are forwarded.
pub open spec fn message_in(forward: Seq<u8>, m: ObservedView) -> Seq<u8> {
    forward.subrange(m.offset as int, (m.offset + m.length) as int)
}

/// Whether the messages lie within the forwarded bytes, one behind the other.
pub open spec fn in_order(forward: Seq<u8>, messages: Seq<ObservedView>) -> bool {
    &&& forall|i: int| 0 <= i < messages.len() ==> within(#[trigger] messages[i], forward.len())
    &&& forall|i: int, j: int|
        0 <= i < j < messages.len() ==> (#[trigger] messages[i]).offset + messages[i].length <= (
        #[trigger] messages[j]).offset
}

/// Whether byte `j` belongs to one of the messages.
pub open spec fn in_message(messages: Seq<ObservedView>, j: int) -> bool {
    exists|i: int|
        0 <= i < messages.len() && (#[trigger] messages[i]).offset <= j < messages[i].offset
            + messages[i].length
}

/// Messages that tile the forwarded bytes lie within them, one behind the
/// other.
pub proof fn tiled_in_order(forward: Seq<u8>, messages: Seq<ObservedView>, from: nat)
    requires
        tiled(forward, messages, from),
    ensures
        in_order(forward, messages),
        forall|i: int| 0 <= i < messages.len() ==> from <= (#[trigger] messages[i]).offset,
    decreases messages.len(),
{
    if messages.len() > 0 {
        let rest = messages.skip(1);
        tiled_in_order(forward, rest, from + messages[0].length);
        assert forall|i: int| 0 < i < messages.len() implies from + messages[0].length <= (
        #[trigger] messages[i]).offset && within(messages[i], forward.len()) by {
            assert(rest[i - 1] == messages[i]);
        }
        assert forall|i: int, j: int| 0 <= i < j < messages.len() implies (
        #[trigger] messages[i]).offset + messages[i].length <= (
        #[trigger] messages[j]).offset by {
            if i > 0 {
                assert(rest[i - 1] == messages[i]);
                assert(rest[j - 1] == messages[j]);
            }
        }
    }
}

/// Rewriting translates each message by itself, and changes no byte outside the
/// messages.
pub proof fn rewriting_translates_each_message(
    forward: Seq<u8>,
    messages: Seq<ObservedView>,
    delta: (i32, i32),
)
    requires
        in_order(forward, messages),
    ensures
        rewritten(forward, messages, delta).len() == forward.len(),
        forall|i: int|
            0 <= i < messages.len() ==> message_in(
                rewritten(forward, messages, delta),
                #[trigger] messages[i],
            ) == moved_message(message_in(forward, messages[i]), messages[i].header, delta),
        forall|j: int|
            0 <= j < forward.len() && !in_message(messages, j) ==> #[trigger] rewritten(
                forward,
                messages,
                delta,
            )[j] == forward[j],
    decreases messages.len(),
{
    if messages.len() > 0 {
        let front = messages.drop_last();
        let m = messages.last();
        assert(in_order(forward, front)) by {
            assert forall|i: int| 0 <= i < front.len() implies within(
                #[trigger] front[i],
                forward.len(),
            ) by {
                assert(front[i] == messages[i]);
            }
            assert forall|i: int, j: int| 0 <= i < j < front.len() implies (
            #[trigger] front[i]).offset + front[i].length <= (#[trigger] front[j]).offset by {
                assert(front[i] == messages[i]);
                assert(front[j] == messages[j]);
            }
        }
        rewriting_translates_each_message(forward, front, delta);
        let before = rewritten(forward, front, delta);
        let after = rewritten(forward, messages, delta);
        let from = m.offset as int;
        let to = (m.offset + m.length) as int;
        assert(m == messages[messages.len() - 1]);
        translation_moves_coordinates_only(before.subrange(from, to), m.header, delta);
        assert(after.len() == forward.len());
        assert(message_in(before, m) =~= message_in(forward, m)) by {
            assert forall|j: int| from <= j < to implies before[j] == forward[j] by {
                assert(!in_message(front, j)) by {
                    if in_message(front, j) {
                        let i = choose|i: int|
                            0 <= i < front.len() && (#[trigger] front[i]).offset <= j
                                < front[i].offset + front[i].length;
                        assert(front[i] == messages[i]);
                    }
                }
            }
        }
        assert(message_in(after, m) =~= moved_message(message_in(forward, m), m.header, delta));
        assert forall|i: int| 0 <= i < messages.len() implies message_in(
            after,
            #[trigger] messages[i],
        ) == moved_message(message_in(forward, messages[i]), messages[i].header, delta) by {
            if i < front.len() {
                let n = messages[i];
                assert(front[i] == n);
                assert(n.offset + n.length <= m.offset);
                assert(message_in(after, n) =~= message_in(before, n));
            }
        }
        assert forall|j: int|
            0 <= j < forward.len() && !in_message(messages, j) implies #[trigger] after[j]
            == forward[j] by {
            assert(!in_message(front, j)) by {
                if in_message(front, j) {
                    let i = choose|i: int|
                        0 <= i < front.len() && (#[trigger] front[i]).offset <= j
                            < front[i].offset + front[i].length;
                    assert(front[i] == messages[i]);
                    assert(in_message(messages, j));
                }
            }
            assert(!(from <= j < to)) by {
                if from <= j < to {
                    assert(messages[messages.len() - 1].offset <= j);
                    assert(in_message(messages, j));
                }
            }
            assert(before[j] == forward[j]);
        }
    }
}

/// Rewriting is undone by rewriting with the opposite translation.
pub proof fn rewriting_is_undone(
    forward: Seq<u8>,
    messages: Seq<ObservedView>,
    d: (i32, i32),
    e: (i32, i32),
)
    requires
        in_order(forward, messages),
        wrapped(d.0 + e.0) == 0,
        wrapped(d.1 + e.1) == 0,
    ensures
        rewritten(rewritten(forward, messages, d), messages, e) == forward,
{
    let there = rewritten(forward, messages, d);
    rewriting_translates_each_message(forward, messages, d);
    rewriting_translates_each_message(there, messages, e);
    let back = rewritten(there, messages, e);
    assert forall|j: int| 0 <= j < forward.len() implies back[j] == forward[j] by {
        if in_message(messages, j) {
            let i = choose|i: int|
                0 <= i < messages.len() && (#[trigger] messages[i]).offset <= j
                    < messages[i].offset + messages[i].length;
            let m = messages[i];
            translation_is_undone(message_in(forward, m), m.header, d, e);
            assert(message_in(back, m) == message_in(forward, m));
            assert(message_in(back, m)[j - m.offset] == back[j]);
            assert(message_in(forward, m)[j - m.offset] == forward[j]);
        } else {
            assert(there[j] == forward[j]);
        }
    }
    assert(back =~= forward);
}

} // verus!
