//! What the host sees of the chain of effects.

use vstd::prelude::*;

use super::chain::{
    first_named, housekeeping, joined, kept, on_button, on_key, painting, went_through, Handling,
};
use super::{Effect, EventResult, Reach};

verus! {

/// How many elements pieces have together.
pub open spec fn total<T>(pieces: Seq<Seq<T>>) -> nat
    decreases pieces.len(),
{
    if pieces.len() == 0 {
        0
    } else {
        total(pieces.drop_last()) + pieces.last().len()
    }
}

/// Where the elements of each piece stand when the pieces are joined: behind
/// those of all pieces before it, in their order. There are no others.
pub proof fn pieces_stand_in_order<T>(pieces: Seq<Seq<T>>, i: int, k: int)
    requires
        0 <= i < pieces.len(),
        0 <= k < pieces[i].len(),
    ensures
        joined(pieces).len() == total(pieces),
        total(pieces.take(i)) + k < total(pieces.take(i + 1)) <= total(pieces),
        joined(pieces)[total(pieces.take(i)) + k] == pieces[i][k],
    decreases pieces.len(),
{
    let front = pieces.drop_last();
    joined_length(pieces);
    joined_length(front);
    assert(pieces.take(i + 1).drop_last() =~= pieces.take(i));
    assert(pieces.take(i + 1).last() == pieces[i]);
    if i < pieces.len() - 1 {
        pieces_stand_in_order(front, i, k);
        assert(front.take(i) =~= pieces.take(i));
        assert(front.take(i + 1) =~= pieces.take(i + 1));
    } else {
        assert(pieces.take(i) =~= front);
        assert(pieces.take(i + 1) =~= pieces);
    }
}

/// The length of joined pieces.
proof fn joined_length<T>(pieces: Seq<Seq<T>>)
    ensures
        joined(pieces).len() == total(pieces),
    decreases pieces.len(),
{
    if pieces.len() > 0 {
        joined_length(pieces.drop_last());
    }
}

/// More pieces have at least as many elements.
proof fn total_grows<T>(pieces: Seq<Seq<T>>, i: int, j: int)
    requires
        0 <= i <= j <= pieces.len(),
    ensures
        total(pieces.take(i)) <= total(pieces.take(j)),
    decreases j - i,
{
    if i < j {
        total_grows(pieces, i, j - 1);
        assert(pieces.take(j).drop_last() =~= pieces.take(j - 1));
    }
}

/// The elements of a higher effect come in front of those of a lower one: in
/// what a chain paints, each element of effect `i` stands before each element of
/// effect `j` behind it.
pub proof fn the_topmost_is_painted_first<E: Effect>(
    before: Seq<E>,
    ctx: E::Ctx,
    after: Seq<E>,
    renderers: Seq<E::Renderer>,
    pieces: Seq<Seq<E::Element>>,
    i: int,
    j: int,
    k: int,
    l: int,
)
    requires
        painting(before, ctx, after, renderers, pieces),
        0 <= i < j < before.len(),
        0 <= k < pieces[i].len(),
        0 <= l < pieces[j].len(),
    ensures
        ({
            let out = joined(pieces);
            let a = total(pieces.take(i)) + k;
            let b = total(pieces.take(j)) + l;
            &&& 0 <= a < b < out.len()
            &&& out[a] == pieces[i][k]
            &&& out[b] == pieces[j][l]
        }),
{
    pieces_stand_in_order(pieces, i, k);
    pieces_stand_in_order(pieces, j, l);
    total_grows(pieces, i + 1, j);
}

/// Every active effect paints, once, with the renderer as the one before it left
/// it. The others give nothing and stay as they are.
pub proof fn active_effects_paint<E: Effect>(
    before: Seq<E>,
    ctx: E::Ctx,
    after: Seq<E>,
    renderers: Seq<E::Renderer>,
    pieces: Seq<Seq<E::Element>>,
    i: int,
)
    requires
        painting(before, ctx, after, renderers, pieces),
        0 <= i < before.len(),
    ensures
        after.len() == before.len(),
        pieces.len() == before.len(),
        renderers.len() == before.len() + 1,
        before[i].active() ==> E::painted(
            (before[i], renderers[i]),
            ctx,
            (after[i], renderers[i + 1]),
            pieces[i],
        ),
        !before[i].active() ==> after[i] == before[i] && renderers[i + 1] == renderers[i]
            && pieces[i].len() == 0,
{
}

/// Every active effect does its housekeeping; the others stay as they are and
/// ask for nothing.
pub proof fn active_effects_keep_house<E: Effect>(
    before: Seq<E>,
    after: Seq<E>,
    again: Seq<bool>,
    i: int,
)
    requires
        housekeeping(before, after, again),
        0 <= i < before.len(),
    ensures
        after.len() == before.len(),
        again.len() == before.len(),
        before[i].active() ==> E::post_painted(before[i], after[i], again[i]),
        !before[i].active() ==> after[i] == before[i] && !again[i],
{
}

/// How many of the effects are to stay.
pub open spec fn staying<E: Effect>(effects: Seq<E>) -> nat
    decreases effects.len(),
{
    if effects.len() == 0 {
        0
    } else {
        staying(effects.drop_last()) + if effects.last().removable() {
            0nat
        } else {
            1
        }
    }
}

/// Exactly the effects that are to be removed are dropped, and the others keep
/// their order: each that stays comes behind those that stay before it.
pub proof fn finished_effects_are_dropped<E: Effect>(effects: Seq<E>, i: int)
    requires
        0 <= i < effects.len(),
    ensures
        kept(effects).len() == staying(effects),
        !effects[i].removable() ==> staying(effects.take(i)) < kept(effects).len()
            && kept(effects)[staying(effects.take(i)) as int] == effects[i],
        forall|k: int| 0 <= k < kept(effects).len() ==> !(#[trigger] kept(effects)[k]).removable(),
    decreases effects.len(),
{
    let front = effects.drop_last();
    if front.len() > 0 {
        finished_effects_are_dropped(front, if i < front.len() {
            i
        } else {
            0
        });
    } else {
        reveal_with_fuel(kept, 2);
        reveal_with_fuel(staying, 2);
    }
    if i < front.len() {
        assert(front.take(i) =~= effects.take(i));
    } else {
        assert(effects.take(i) =~= front);
    }
}

/// An event goes down the chain until an effect consumes it: the effects before
/// that one have let it pass, and those behind it never see it. An event that
/// nobody consumes has been seen by all.
pub proof fn the_first_to_consume_ends_it<E: Effect>(
    before: Seq<E>,
    after: Seq<E>,
    reaches: Seq<Reach<E::Ipc>>,
    n: int,
    handled: Handling<E>,
    result: EventResult,
    i: int,
)
    requires
        went_through(before, after, reaches, n, handled, result),
        0 <= i < before.len(),
    ensures
        after.len() == before.len(),
        reaches.len() == n + 1,
        i < n - 1 ==> handled(
            (before[i], reaches[i]),
            (after[i], reaches[i + 1]),
            EventResult::Pass,
        ),
        i == n - 1 ==> handled((before[i], reaches[i]), (after[i], reaches[i + 1]), result),
        i >= n ==> after[i] == before[i],
        result == EventResult::Pass ==> i < n,
        result == EventResult::Consumed ==> 1 <= n <= before.len(),
{
}

/// What handling an event means.
pub proof fn handling<E: Effect>(
    button: E::Button,
    key: E::Key,
    b: (E, Reach<E::Ipc>),
    a: (E, Reach<E::Ipc>),
    r: EventResult,
)
    ensures
        on_button::<E>(button)(b, a, r) == E::button_handled(b, button, a, r),
        on_key::<E>(key)(b, a, r) == E::key_handled(b, key, a, r),
{
}

/// A message goes to one effect at most: one that has the name, with none of
/// that name before it; and to one where there is one.
pub proof fn messages_go_by_name<E: Effect>(effects: Seq<E>, name: Seq<char>, i: int, j: int)
    requires
        0 <= i < effects.len(),
        0 <= j < effects.len(),
    ensures
        first_named(effects, name, i) ==> effects[i].spec_name()@ == name,
        first_named(effects, name, i) && first_named(effects, name, j) ==> i == j,
        effects[i].spec_name()@ == name ==> exists|k: int|
            k <= i && #[trigger] first_named(effects, name, k),
    decreases i,
{
    if effects[i].spec_name()@ == name && !first_named(effects, name, i) {
        let k = choose|k: int| 0 <= k < i && (#[trigger] effects[k]).spec_name()@ == name;
        messages_go_by_name(effects, name, k, j);
    }
}

/// An effect that does not mind stands in the middle of the chain's range.
pub proof fn the_default_position_is_the_middle()
    ensures
        super::DEFAULT_CHAIN_POSITION == 50,
{
}

} // verus!
