//! The chain of effects.

use vstd::prelude::*;

use super::{Effect, EffectInputCtx, EventResult, Reach};
use crate::text::same_text;

verus! {

/// The registered effects, the topmost first.
pub struct EffectChain<E: Effect> {
    effects: Vec<E>,
}

impl<E: Effect> View for EffectChain<E> {
    type V = Seq<E>;

    closed spec fn view(&self) -> Seq<E> {
        self.effects@
    }
}

impl<E: Effect> EffectChain<E> {
    /// Lets each active effect tick.
    pub fn pre_paint(&mut self, ctx: &E::Ctx)
        ensures
            final(self)@.len() == old(self)@.len(),
            forall|i: int|
                0 <= i < old(self)@.len() ==> if (#[trigger] old(self)@[i]).active() {
                    E::pre_painted(old(self)@[i], *ctx, final(self)@[i])
                } else {
                    final(self)@[i] == old(self)@[i]
                },
    {
        let ghost before = self.effects@;
        let mut i: usize = 0;
        while i < self.effects.len()
            invariant
                i <= self.effects@.len(),
                before == old(self).effects@,
                self.effects@.len() == before.len(),
                forall|k: int| i <= k < before.len() ==> self.effects@[k] == before[k],
                forall|k: int|
                    0 <= k < i ==> if (#[trigger] before[k]).active() {
                        E::pre_painted(before[k], *ctx, self.effects@[k])
                    } else {
                        self.effects@[k] == before[k]
                    },
            decreases self.effects@.len() - i,
        {
            if self.effects[i].is_active() {
                self.effects[i].pre_paint(ctx);
            }
            i = i + 1;
        }
    }
}

// ---------------------------------------------------------------------------
// Order
// ---------------------------------------------------------------------------
/// Where an effect goes among those that are in order: behind all that are at
/// least as high.
pub open spec fn place_for<E: Effect>(effects: Seq<E>, position: u8) -> nat
    decreases effects.len(),
{
    if effects.len() == 0 || effects[0].position() < position {
        0
    } else {
        1 + place_for(effects.skip(1), position)
    }
}

/// The effects in the order of the chain: the higher first, and those of the
/// same height in the order in which they came.
pub open spec fn arranged<E: Effect>(effects: Seq<E>) -> Seq<E>
    decreases effects.len(),
{
    if effects.len() == 0 {
        seq![]
    } else {
        let front = arranged(effects.drop_last());
        front.insert(place_for(front, effects.last().position()) as int, effects.last())
    }
}

/// Whether no effect stands behind a lower one.
pub open spec fn descending<E: Effect>(effects: Seq<E>) -> bool {
    forall|i: int, j: int|
        0 <= i < j < effects.len() ==> (#[trigger] effects[i]).position() >= (
        #[trigger] effects[j]).position()
}

/// The place of an effect is within the chain, behind those at least as high
/// and in front of a lower one.
proof fn place_bounds<E: Effect>(effects: Seq<E>, position: u8)
    ensures
        place_for(effects, position) <= effects.len(),
        forall|i: int|
            0 <= i < place_for(effects, position) ==> (#[trigger] effects[i]).position()
                >= position,
        place_for(effects, position) < effects.len() ==> effects[place_for(
            effects,
            position,
        ) as int].position() < position,
    decreases effects.len(),
{
    if effects.len() > 0 && effects[0].position() >= position {
        let rest = effects.skip(1);
        place_bounds(rest, position);
        assert forall|i: int| 0 <= i < place_for(effects, position) implies (
        #[trigger] effects[i]).position() >= position by {
            if i > 0 {
                assert(effects[i] == rest[i - 1]);
            }
        }
        if place_for(effects, position) < effects.len() {
            assert(effects[place_for(effects, position) as int] == rest[place_for(
                rest,
                position,
            ) as int]);
        }
    }
}

/// The effects of one height.
pub open spec fn of_height<E: Effect>(effects: Seq<E>, height: u8) -> Seq<E>
    decreases effects.len(),
{
    if effects.len() == 0 {
        seq![]
    } else if effects.last().position() == height {
        of_height(effects.drop_last(), height).push(effects.last())
    } else {
        of_height(effects.drop_last(), height)
    }
}

/// The effects of one height in two parts of a chain.
proof fn of_height_concat<E: Effect>(a: Seq<E>, b: Seq<E>, height: u8)
    ensures
        of_height(a + b, height) == of_height(a, height) + of_height(b, height),
    decreases b.len(),
{
    if b.len() == 0 {
        assert(a + b =~= a);
        assert(of_height(a, height) + of_height(b, height) =~= of_height(a, height));
    } else {
        of_height_concat(a, b.drop_last(), height);
        assert((a + b).drop_last() =~= a + b.drop_last());
        assert((a + b).last() == b.last());
        if b.last().position() == height {
            assert(of_height(a, height) + of_height(b, height) =~= (of_height(a, height)
                + of_height(b.drop_last(), height)).push(b.last()));
        }
    }
}

/// No effect of a height among lower ones.
proof fn none_of_height<E: Effect>(effects: Seq<E>, height: u8)
    requires
        forall|i: int| 0 <= i < effects.len() ==> (#[trigger] effects[i]).position() < height,
    ensures
        of_height(effects, height).len() == 0,
    decreases effects.len(),
{
    if effects.len() > 0 {
        let front = effects.drop_last();
        assert forall|i: int| 0 <= i < front.len() implies (#[trigger] front[i]).position()
            < height by {
            assert(front[i] == effects[i]);
        }
        none_of_height(front, height);
        assert(effects.last() == effects[effects.len() - 1]);
    }
}

/// The order of the chain: no effect stands behind a lower one; and for each
/// height, the effects of that height are the registered ones, in the order in
/// which they were registered.
pub proof fn chain_order<E: Effect>(effects: Seq<E>, height: u8)
    ensures
        arranged(effects).len() == effects.len(),
        descending(arranged(effects)),
        of_height(arranged(effects), height) == of_height(effects, height),
    decreases effects.len(),
{
    if effects.len() > 0 {
        let front = arranged(effects.drop_last());
        let new = effects.last();
        let at = place_for(front, new.position()) as int;
        let all = arranged(effects);
        chain_order(effects.drop_last(), height);
        place_bounds(front, new.position());
        assert forall|i: int| at <= i < front.len() implies (#[trigger] front[i]).position()
            < new.position() by {
            assert(front[at].position() >= front[i].position() || i == at);
        }
        assert forall|i: int, j: int| 0 <= i < j < all.len() implies (
        #[trigger] all[i]).position() >= (#[trigger] all[j]).position() by {
            if i < at && j < at {
                assert(all[i] == front[i] && all[j] == front[j]);
            } else if i < at && j == at {
                assert(all[i] == front[i]);
            } else if i < at {
                assert(all[i] == front[i] && all[j] == front[j - 1]);
            } else if i == at {
                assert(all[j] == front[j - 1]);
            } else {
                assert(all[i] == front[i - 1] && all[j] == front[j - 1]);
            }
        }
        let a = front.take(at);
        let b = front.skip(at);
        assert(front =~= a + b);
        assert(all =~= a + seq![new] + b);
        of_height_concat(a, b, height);
        of_height_concat(a + seq![new], b, height);
        of_height_concat(a, seq![new], height);
        reveal_with_fuel(of_height, 2);
        assert(seq![new].drop_last() =~= seq![]);
        if new.position() == height {
            assert forall|i: int| 0 <= i < b.len() implies (#[trigger] b[i]).position() < height by {
                assert(b[i] == front[at + i]);
            }
            none_of_height(b, height);
            assert(of_height(b, height) =~= seq![]);
            assert(of_height(seq![new], height) =~= seq![new]);
            assert(of_height(all, height) =~= of_height(front, height).push(new));
        } else {
            assert(of_height(seq![new], height) =~= seq![]);
            assert(of_height(all, height) =~= of_height(front, height));
        }
    }
}

/// A chain that is in order stays as it is.
proof fn arranged_in_order<E: Effect>(effects: Seq<E>)
    requires
        descending(effects),
    ensures
        arranged(effects) == effects,
    decreases effects.len(),
{
    if effects.len() > 0 {
        let front = effects.drop_last();
        let last = effects.last();
        assert forall|i: int, j: int| 0 <= i < j < front.len() implies (
        #[trigger] front[i]).position() >= (#[trigger] front[j]).position() by {
            assert(front[i] == effects[i] && front[j] == effects[j]);
        }
        arranged_in_order(front);
        place_bounds(front, last.position());
        let at = place_for(front, last.position()) as int;
        assert(at == front.len()) by {
            if at < front.len() {
                assert(front[at] == effects[at]);
                assert(effects[at].position() >= effects[effects.len() - 1].position());
            }
        }
        assert(front.insert(at, last) =~= effects);
    }
}

/// Registering effects one by one gives the order of all of them together.
pub proof fn registration_in_turn<E: Effect>(effects: Seq<E>, effect: E)
    ensures
        arranged(arranged(effects).push(effect)) == arranged(effects.push(effect)),
{
    chain_order(effects, 0);
    arranged_in_order(arranged(effects));
    assert(effects.push(effect).drop_last() =~= effects);
    assert(arranged(effects).push(effect).drop_last() =~= arranged(effects));
}

/// Puts an effect where it goes.
fn insert_effect<E: Effect>(effects: &mut Vec<E>, effect: E)
    ensures
        final(effects)@ == old(effects)@.insert(
            place_for(old(effects)@, effect.position()) as int,
            effect,
        ),
{
    let position: u8 = effect.chain_position();
    let mut at: usize = 0;
    assert(effects@.skip(0) =~= effects@);
    proof {
        place_bounds(effects@, position);
    }
    while at < effects.len() && effects[at].chain_position() >= position
        invariant
            at <= effects@.len(),
            effects@ == old(effects)@,
            place_for(effects@, position) == at + place_for(effects@.skip(at as int), position),
        decreases effects@.len() - at,
    {
        assert(effects@.skip(at as int).skip(1) =~= effects@.skip(at + 1));
        at = at + 1;
    }
    effects.insert(at, effect);
}

impl<E: Effect> EffectChain<E> {
    /// A chain without effects.
    pub fn new() -> (chain: EffectChain<E>)
        ensures
            chain@ == Seq::<E>::empty(),
    {
        let chain = EffectChain { effects: Vec::new() };
        assert(chain@ =~= Seq::<E>::empty());
        chain
    }

    /// Registers an effect and brings the chain in order.
    pub fn register(&mut self, effect: E)
        ensures
            final(self)@ == arranged(old(self)@.push(effect)),
    {
        let ghost all = self.effects@.push(effect);
        self.effects.push(effect);
        let mut sorted: Vec<E> = Vec::new();
        let ghost mut n: int = 0;
        assert(all.take(0) =~= seq![]);
        assert(all.skip(0) =~= all);
        while self.effects.len() > 0
            invariant
                0 <= n <= all.len(),
                self.effects@ == all.skip(n),
                sorted@ == arranged(all.take(n)),
            decreases self.effects@.len(),
        {
            let next = self.effects.remove(0);
            insert_effect(&mut sorted, next);
            proof {
                assert(next == all[n]);
                assert(all.take(n + 1).drop_last() =~= all.take(n));
                assert(self.effects@ =~= all.skip(n + 1));
                n = n + 1;
            }
        }
        assert(all.take(all.len() as int) =~= all);
        self.effects = sorted;
    }
}

impl<E: Effect> Default for EffectChain<E> {
    fn default() -> (chain: EffectChain<E>)
        ensures
            chain@ == Seq::<E>::empty(),
    {
        EffectChain::new()
    }
}

// ---------------------------------------------------------------------------
// Frames
// ---------------------------------------------------------------------------
/// Whether the active effects among `before` paint in order: each with the
/// renderer as the one before it left it (`renderers`), giving its `pieces`.
pub open spec fn painting<E: Effect>(
    before: Seq<E>,
    ctx: E::Ctx,
    after: Seq<E>,
    renderers: Seq<E::Renderer>,
    pieces: Seq<Seq<E::Element>>,
) -> bool {
    &&& after.len() == before.len()
    &&& renderers.len() == before.len() + 1
    &&& pieces.len() == before.len()
    &&& forall|i: int|
        0 <= i < before.len() ==> if (#[trigger] before[i]).active() {
            E::painted((before[i], renderers[i]), ctx, (after[i], renderers[i + 1]), pieces[i])
        } else {
            after[i] == before[i] && renderers[i + 1] == renderers[i] && pieces[i]
                == Seq::<E::Element>::empty()
        }
}

/// Pieces one behind the other.
pub open spec fn joined<T>(pieces: Seq<Seq<T>>) -> Seq<T>
    decreases pieces.len(),
{
    if pieces.len() == 0 {
        seq![]
    } else {
        joined(pieces.drop_last()) + pieces.last()
    }
}

/// Appends the elements of one effect to those of the effects above it.
fn append_elements<T>(out: &mut Vec<T>, mut piece: Vec<T>)
    ensures
        final(out)@ == old(out)@ + piece@,
{
    let ghost added = piece@;
    out.append(&mut piece);
    assert(out@ =~= old(out)@ + added);
}

impl<E: Effect> EffectChain<E> {
    /// The elements of all active effects, the topmost first.
    pub fn paint(&mut self, renderer: &mut E::Renderer, ctx: &E::Ctx) -> (out: Vec<E::Element>)
        ensures
            exists|renderers: Seq<E::Renderer>, pieces: Seq<Seq<E::Element>>| #[trigger]
                painting(old(self)@, *ctx, final(self)@, renderers, pieces) && renderers.first()
                    == *old(renderer) && renderers.last() == *final(renderer) && out@ == joined(
                    pieces,
                ),
    {
        let ghost before = self.effects@;
        let ghost mut renderers: Seq<E::Renderer> = seq![*renderer];
        let ghost mut pieces: Seq<Seq<E::Element>> = seq![];
        let mut out: Vec<E::Element> = Vec::new();
        let mut i: usize = 0;
        assert(out@ =~= joined(pieces));
        while i < self.effects.len()
            invariant
                i <= self.effects@.len(),
                before == old(self).effects@,
                self.effects@.len() == before.len(),
                forall|k: int| i <= k < before.len() ==> self.effects@[k] == before[k],
                renderers.len() == i + 1,
                pieces.len() == i,
                renderers.first() == *old(renderer),
                renderers.last() == *renderer,
                out@ == joined(pieces),
                forall|k: int|
                    0 <= k < i ==> if (#[trigger] before[k]).active() {
                        E::painted(
                            (before[k], renderers[k]),
                            *ctx,
                            (self.effects@[k], renderers[k + 1]),
                            pieces[k],
                        )
                    } else {
                        self.effects@[k] == before[k] && renderers[k + 1] == renderers[k]
                            && pieces[k] == Seq::<E::Element>::empty()
                    },
            decreases self.effects@.len() - i,
        {
            let ghost mut piece: Seq<E::Element> = seq![];
            let ghost so_far = out@;
            if self.effects[i].is_active() {
                let painted = self.effects[i].paint(renderer, ctx);
                proof {
                    piece = painted@;
                }
                append_elements(&mut out, painted);
            }
            proof {
                assert(out@ =~= so_far + piece);
                assert(pieces.push(piece).drop_last() =~= pieces);
                renderers = renderers.push(*renderer);
                pieces = pieces.push(piece);
            }
            i = i + 1;
        }
        assert(painting(old(self)@, *ctx, self@, renderers, pieces));
        out
    }
}

/// Whether the active effects among `before` have done their housekeeping, each
/// asking for another frame or not (`again`).
pub open spec fn housekeeping<E: Effect>(before: Seq<E>, after: Seq<E>, again: Seq<bool>) -> bool {
    &&& after.len() == before.len()
    &&& again.len() == before.len()
    &&& forall|i: int|
        0 <= i < before.len() ==> if (#[trigger] before[i]).active() {
            E::post_painted(before[i], after[i], again[i])
        } else {
            after[i] == before[i] && !again[i]
        }
}

/// The effects that are not to be removed, in order.
pub open spec fn kept<E: Effect>(effects: Seq<E>) -> Seq<E>
    decreases effects.len(),
{
    if effects.len() == 0 {
        seq![]
    } else if effects.last().removable() {
        kept(effects.drop_last())
    } else {
        kept(effects.drop_last()).push(effects.last())
    }
}

impl<E: Effect> EffectChain<E> {
    /// Lets the active effects do their housekeeping, and drops those that are
    /// to be removed. Gives whether one of them asked for another frame.
    pub fn post_paint(&mut self) -> (want_redraw: bool)
        ensures
            exists|after: Seq<E>, again: Seq<bool>| #[trigger]
                housekeeping(old(self)@, after, again) && final(self)@ == kept(after)
                    && want_redraw == again.contains(true),
    {
        let ghost before = self.effects@;
        let ghost mut again: Seq<bool> = seq![];
        let mut want_redraw = false;
        let mut i: usize = 0;
        while i < self.effects.len()
            invariant
                i <= self.effects@.len(),
                before == old(self).effects@,
                self.effects@.len() == before.len(),
                forall|k: int| i <= k < before.len() ==> self.effects@[k] == before[k],
                again.len() == i,
                want_redraw == again.contains(true),
                forall|k: int|
                    0 <= k < i ==> if (#[trigger] before[k]).active() {
                        E::post_painted(before[k], self.effects@[k], again[k])
                    } else {
                        self.effects@[k] == before[k] && !again[k]
                    },
            decreases self.effects@.len() - i,
        {
            let mut asked = false;
            if self.effects[i].is_active() {
                asked = self.effects[i].post_paint();
                if asked {
                    want_redraw = true;
                }
            }
            proof {
                let longer = again.push(asked);
                assert(longer.contains(true) == (again.contains(true) || asked)) by {
                    if again.contains(true) {
                        let k = choose|k: int| 0 <= k < again.len() && again[k] == true;
                        assert(longer[k] == true);
                    }
                    if asked {
                        assert(longer[again.len() as int] == true);
                    }
                    if longer.contains(true) {
                        let k = choose|k: int| 0 <= k < longer.len() && longer[k] == true;
                        if k < again.len() {
                            assert(again[k] == true);
                        }
                    }
                }
                again = longer;
            }
            i = i + 1;
        }
        let ghost after = self.effects@;
        assert(housekeeping(old(self)@, after, again));
        let mut left: Vec<E> = Vec::new();
        let ghost mut n: int = 0;
        assert(after.take(0) =~= seq![]);
        assert(after.skip(0) =~= after);
        while self.effects.len() > 0
            invariant
                0 <= n <= after.len(),
                self.effects@ == after.skip(n),
                left@ == kept(after.take(n)),
            decreases self.effects@.len(),
        {
            let effect = self.effects.remove(0);
            proof {
                assert(effect == after[n]);
                assert(after.take(n + 1).drop_last() =~= after.take(n));
                assert(self.effects@ =~= after.skip(n + 1));
                n = n + 1;
            }
            if !effect.should_remove() {
                left.push(effect);
            }
        }
        assert(after.take(after.len() as int) =~= after);
        self.effects = left;
        want_redraw
    }

    /// Tells every effect, active or not, that another workspace is shown.
    pub fn on_workspace_switch(&mut self)
        ensures
            final(self)@.len() == old(self)@.len(),
            forall|i: int|
                0 <= i < old(self)@.len() ==> E::switched(
                    #[trigger] old(self)@[i],
                    final(self)@[i],
                ),
    {
        let ghost before = self.effects@;
        let mut i: usize = 0;
        while i < self.effects.len()
            invariant
                i <= self.effects@.len(),
                before == old(self).effects@,
                self.effects@.len() == before.len(),
                forall|k: int| i <= k < before.len() ==> self.effects@[k] == before[k],
                forall|k: int| 0 <= k < i ==> E::switched(#[trigger] before[k], self.effects@[k]),
            decreases self.effects@.len() - i,
        {
            self.effects[i].on_workspace_switch();
            i = i + 1;
        }
    }
}

// ---------------------------------------------------------------------------
// Messages and input
// ---------------------------------------------------------------------------
/// The first effect of a name.
pub open spec fn first_named<E: Effect>(effects: Seq<E>, name: Seq<char>, i: int) -> bool {
    &&& 0 <= i < effects.len()
    &&& effects[i].spec_name()@ == name
    &&& forall|k: int| 0 <= k < i ==> (#[trigger] effects[k]).spec_name()@ != name
}

/// What an effect may do with an event: from itself and what it can reach to
/// what becomes of both, with the result.
pub type Handling<E> = spec_fn(
    (E, Reach<<E as Effect>::Ipc>),
    (E, Reach<<E as Effect>::Ipc>),
    EventResult,
) -> bool;

/// What an effect may do with a button event.
pub open spec fn on_button<E: Effect>(event: E::Button) -> Handling<E> {
    |b: (E, Reach<E::Ipc>), a: (E, Reach<E::Ipc>), r: EventResult|
        E::button_handled(b, event, a, r)
}

/// What an effect may do with a key event.
pub open spec fn on_key<E: Effect>(event: E::Key) -> Handling<E> {
    |b: (E, Reach<E::Ipc>), a: (E, Reach<E::Ipc>), r: EventResult| E::key_handled(b, event, a, r)
}

/// Whether an event has gone through the chain: from effect to effect, each
/// finding what the one before it left (`reaches`), until one consumes it.
/// `handled` is what an effect may do with the event; the first `n` effects
/// have seen it.
pub open spec fn went_through<E: Effect>(
    before: Seq<E>,
    after: Seq<E>,
    reaches: Seq<Reach<E::Ipc>>,
    n: int,
    handled: Handling<E>,
    result: EventResult,
) -> bool {
    &&& after.len() == before.len()
    &&& 0 <= n <= before.len()
    &&& reaches.len() == n + 1
    &&& forall|i: int|
        0 <= i < n ==> handled(
            (#[trigger] before[i], reaches[i]),
            (after[i], reaches[i + 1]),
            if i == n - 1 {
                result
            } else {
                EventResult::Pass
            },
        )
    &&& forall|i: int| n <= i < before.len() ==> after[i] == #[trigger] before[i]
    &&& result == EventResult::Pass ==> n == before.len()
    &&& result == EventResult::Consumed ==> n > 0
}

impl<E: Effect> EffectChain<E> {
    /// Hands a message to the first effect of that name, if there is one.
    pub fn dispatch_ipc(&mut self, name: &str, payload: &E::Payload)
        ensures
            final(self)@.len() == old(self)@.len(),
            forall|i: int|
                0 <= i < old(self)@.len() ==> if #[trigger] first_named(old(self)@, name@, i) {
                    E::messaged(old(self)@[i], *payload, final(self)@[i])
                } else {
                    final(self)@[i] == old(self)@[i]
                },
    {
        let ghost before = self.effects@;
        let mut i: usize = 0;
        while i < self.effects.len()
            invariant
                i <= self.effects@.len(),
                before == old(self).effects@,
                self.effects@ == before,
                forall|k: int| 0 <= k < i ==> (#[trigger] before[k]).spec_name()@ != name@,
            decreases self.effects@.len() - i,
        {
            if same_text(self.effects[i].name(), name) {
                self.effects[i].handle_ipc(payload);
                assert(first_named(before, name@, i as int));
                assert forall|k: int| 0 <= k < before.len() implies if #[trigger] first_named(
                    before,
                    name@,
                    k,
                ) {
                    E::messaged(before[k], *payload, self.effects@[k])
                } else {
                    self.effects@[k] == before[k]
                } by {
                    if k > i {
                        assert(before[i as int].spec_name()@ == name@);
                    }
                }
                return ;
            }
            i = i + 1;
        }
        assert forall|k: int| 0 <= k < before.len() implies !(#[trigger] first_named(
            before,
            name@,
            k,
        )) by {}
    }

    /// Hands a pointer button event down the chain until an effect consumes it.
    pub fn dispatch_pointer_button(
        &mut self,
        event: &E::Button,
        ctx: &mut EffectInputCtx<'_, E::Ipc>,
    ) -> (result: EventResult)
        ensures
            exists|reaches: Seq<Reach<E::Ipc>>, n: int| #[trigger]
                went_through(
                    old(self)@,
                    final(self)@,
                    reaches,
                    n,
                    on_button::<E>(*event),
                    result,
                ) && reaches.first() == old(ctx).reach() && reaches.last() == final(ctx).reach(),
    {
        let ghost before = self.effects@;
        let ghost mut reaches: Seq<Reach<E::Ipc>> = seq![ctx.reach()];
        let ghost handled = on_button::<E>(*event);
        let mut i: usize = 0;
        while i < self.effects.len()
            invariant
                i <= self.effects@.len(),
                before == old(self).effects@,
                self.effects@.len() == before.len(),
                reaches.len() == i + 1,
                reaches.first() == old(ctx).reach(),
                reaches.last() == ctx.reach(),
                handled == on_button::<E>(*event),
                forall|k: int| i <= k < before.len() ==> self.effects@[k] == #[trigger] before[k],
                forall|k: int|
                    0 <= k < i ==> handled(
                        (#[trigger] before[k], reaches[k]),
                        (self.effects@[k], reaches[k + 1]),
                        EventResult::Pass,
                    ),
            decreases self.effects@.len() - i,
        {
            let result = self.effects[i].handle_pointer_button(event, ctx);
            proof {
                reaches = reaches.push(ctx.reach());
            }
            if result == EventResult::Consumed {
                assert(went_through(old(self)@, self@, reaches, i + 1, handled, result));
                return EventResult::Consumed;
            }
            i = i + 1;
        }
        assert(went_through(old(self)@, self@, reaches, i as int, handled, EventResult::Pass));
        EventResult::Pass
    }

    /// Hands a key event down the chain until an effect consumes it.
    pub fn dispatch_key(&mut self, event: &E::Key, ctx: &mut EffectInputCtx<'_, E::Ipc>) -> (result:
        EventResult)
        ensures
            exists|reaches: Seq<Reach<E::Ipc>>, n: int| #[trigger]
                went_through(
                    old(self)@,
                    final(self)@,
                    reaches,
                    n,
                    on_key::<E>(*event),
                    result,
                ) && reaches.first() == old(ctx).reach() && reaches.last() == final(ctx).reach(),
    {
        let ghost before = self.effects@;
        let ghost mut reaches: Seq<Reach<E::Ipc>> = seq![ctx.reach()];
        let ghost handled = on_key::<E>(*event);
        let mut i: usize = 0;
        while i < self.effects.len()
            invariant
                i <= self.effects@.len(),
                before == old(self).effects@,
                self.effects@.len() == before.len(),
                reaches.len() == i + 1,
                reaches.first() == old(ctx).reach(),
                reaches.last() == ctx.reach(),
                handled == on_key::<E>(*event),
                forall|k: int| i <= k < before.len() ==> self.effects@[k] == #[trigger] before[k],
                forall|k: int|
                    0 <= k < i ==> handled(
                        (#[trigger] before[k], reaches[k]),
                        (self.effects@[k], reaches[k + 1]),
                        EventResult::Pass,
                    ),
            decreases self.effects@.len() - i,
        {
            let result = self.effects[i].handle_key(event, ctx);
            proof {
                reaches = reaches.push(ctx.reach());
            }
            if result == EventResult::Consumed {
                assert(went_through(old(self)@, self@, reaches, i + 1, handled, result));
                return EventResult::Consumed;
            }
            i = i + 1;
        }
        assert(went_through(old(self)@, self@, reaches, i as int, handled, EventResult::Pass));
        EventResult::Pass
    }
}

} // verus!
