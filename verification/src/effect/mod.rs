//! Effects: components that paint on top of the scene each frame, and may take
//! part in input.

use vstd::prelude::*;

pub mod chain;
pub mod laws;

verus! {

/// What came of handing an input event to an effect. The first `Consumed` ends
/// the event's way through the chain.
#[derive(Debug, Clone, Copy, PartialEq, Eq, Structural)]
pub enum EventResult {
    Consumed,
    Pass,
}

/// What an effect asks the host to do after an input event.
#[derive(Debug, Clone, Copy, PartialEq, Eq, Structural)]
pub enum EffectCommand {
    SwitchWorkspace(u64),
    RequestRedraw,
}

/// What an effect can reach while it handles an input event: messages to the
/// outside, and commands for the host.
pub struct EffectInputCtx<'a, Ipc> {
    pub ipc: &'a mut Ipc,
    pub commands: &'a mut Vec<EffectCommand>,
}

/// What an effect can reach: the state of the messages, and the commands so
/// far.
pub struct Reach<Ipc> {
    pub ipc: Ipc,
    pub commands: Seq<EffectCommand>,
}

impl<'a, Ipc> EffectInputCtx<'a, Ipc> {
    /// What can be reached through it.
    pub open spec fn reach(&self) -> Reach<Ipc> {
        Reach { ipc: *self.ipc, commands: self.commands@ }
    }
}

/// The place in the chain of an effect that does not mind: the middle.
pub const DEFAULT_CHAIN_POSITION: u8 = 50;

/// An effect. Its associated types are those of the host: what it shows an
/// effect each frame, the renderer and its elements, and the input events.
///
/// What an effect is called, whether it takes part, where it stands and whether
/// it is to go are for the implementation to say, as values of the effect. What
/// a method does to an effect has a relation, which allows everything where an
/// implementation leaves it out.
pub trait Effect: Sized {
    type Ctx;

    type Renderer;

    type Element;

    type Payload;

    type Button;

    type Key;

    type Ipc;

    /// The name.
    spec fn spec_name(&self) -> &'static str;

    /// Whether the effect takes part in frames.
    spec fn active(&self) -> bool;

    /// The place in the chain.
    spec fn position(&self) -> u8;

    /// Whether the effect is to be removed.
    spec fn removable(&self) -> bool;

    /// What a tick before painting may do.
    open spec fn pre_painted(before: Self, ctx: Self::Ctx, after: Self) -> bool {
        true
    }

    /// What painting may do and give.
    open spec fn painted(
        before: (Self, Self::Renderer),
        ctx: Self::Ctx,
        after: (Self, Self::Renderer),
        out: Seq<Self::Element>,
    ) -> bool {
        true
    }

    /// What housekeeping after painting may do, and whether it asks for another
    /// frame.
    open spec fn post_painted(before: Self, after: Self, again: bool) -> bool {
        true
    }

    /// What a switch of workspaces may do.
    open spec fn switched(before: Self, after: Self) -> bool {
        true
    }

    /// What a message may do.
    open spec fn messaged(before: Self, payload: Self::Payload, after: Self) -> bool {
        true
    }

    /// What handling a button event may do, to the effect and to what it can
    /// reach, and the result.
    open spec fn button_handled(
        before: (Self, Reach<Self::Ipc>),
        event: Self::Button,
        after: (Self, Reach<Self::Ipc>),
        result: EventResult,
    ) -> bool {
        true
    }

    /// What handling a key event may do, to the effect and to what it can reach,
    /// and the result.
    open spec fn key_handled(
        before: (Self, Reach<Self::Ipc>),
        event: Self::Key,
        after: (Self, Reach<Self::Ipc>),
        result: EventResult,
    ) -> bool {
        true
    }

    /// Stable identifier, by which messages are routed.
    fn name(&self) -> (name: &'static str)
        ensures
            name@ == self.spec_name()@,
    ;

    /// Whether the effect takes part in this frame.
    fn is_active(&self) -> (active: bool)
        ensures
            active == self.active(),
    ;

    /// From 0 to 100; a higher one is painted on top.
    fn chain_position(&self) -> (position: u8)
        ensures
            position == self.position(),
    ;

    /// Tick before painting.
    fn pre_paint(&mut self, ctx: &Self::Ctx)
        ensures
            Self::pre_painted(*old(self), *ctx, *final(self)),
    ;

    /// The elements of this frame, the topmost first.
    fn paint(&mut self, renderer: &mut Self::Renderer, ctx: &Self::Ctx) -> (out: Vec<Self::Element>)
        ensures
            Self::painted(
                (*old(self), *old(renderer)),
                *ctx,
                (*final(self), *final(renderer)),
                out@,
            ),
    ;

    /// Housekeeping after painting; `true` asks for another frame.
    fn post_paint(&mut self) -> (again: bool)
        ensures
            Self::post_painted(*old(self), *final(self), again),
    ;

    /// Another workspace is shown.
    fn on_workspace_switch(&mut self)
        ensures
            Self::switched(*old(self), *final(self)),
    ;

    /// Whether the effect is to be removed after this frame.
    fn should_remove(&self) -> (remove: bool)
        ensures
            remove == self.removable(),
    ;

    /// Takes a message.
    fn handle_ipc(&mut self, payload: &Self::Payload)
        ensures
            Self::messaged(*old(self), *payload, *final(self)),
    ;

    /// Takes a pointer button event.
    fn handle_pointer_button(
        &mut self,
        event: &Self::Button,
        ctx: &mut EffectInputCtx<'_, Self::Ipc>,
    ) -> (result: EventResult)
        ensures
            Self::button_handled(
                (*old(self), old(ctx).reach()),
                *event,
                (*final(self), final(ctx).reach()),
                result,
            ),
    ;

    /// Takes a key event.
    fn handle_key(&mut self, event: &Self::Key, ctx: &mut EffectInputCtx<'_, Self::Ipc>) -> (result:
        EventResult)
        ensures
            Self::key_handled(
                (*old(self), old(ctx).reach()),
                *event,
                (*final(self), final(ctx).reach()),
                result,
            ),
    ;
}

} // verus!
