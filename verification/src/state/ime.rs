//! Input-method bridge between the host compositor and embedded clients.
//!
//! - The host's input method is to be on only while the focused client takes
//!   part: for clients with an input method of their own it would break input.
//! - A client is told by hand that it gets or loses the text focus.
//! - Whether the host's input method is to be on is decided here and applied
//!   later by the render loop, which fetches the decision once.

use vstd::prelude::*;

use crate::dbus::endian::wrapped;
use crate::dbus::fields::text_of;
use crate::dbus_broker::{ConnId, FcitxEvent};
use crate::text::same_text;

verus! {

/// Stands for no cursor position in a preedit.
pub const NO_CURSOR: i32 = -1;

/// Handle of a client's surface.
pub type SurfaceId = u64;

/// The input context that the host's input method serves.
#[derive(Debug, Clone, PartialEq, Eq)]
pub struct ActiveFcitxIc {
    pub conn: ConnId,
    pub ic_path: String,
}

/// What an [`ActiveFcitxIc`] stands for.
pub type IcName = (ConnId, Seq<char>);

impl View for ActiveFcitxIc {
    type V = IcName;

    open spec fn view(&self) -> IcName {
        (self.conn, self.ic_path@)
    }
}

/// A position and a size.
pub type Area = ([i32; 2], [i32; 2]);

/// What an [`ImeBridge`] stands for.
#[verifier::ext_equal]
pub struct ImeView {
    /// The surface with the text focus.
    pub focused_surface: Option<SurfaceId>,
    /// The decision on the host's input method that waits to be applied.
    pub ime_enabled: Option<bool>,
    /// The context that the host's input method serves.
    pub active: Option<IcName>,
    /// The cursor area that waits to be applied, in the window's coordinates.
    pub cursor_area: Option<Area>,
}

/// Nothing is known and nothing waits.
pub open spec fn fresh_ime() -> ImeView {
    ImeView { focused_surface: None, ime_enabled: None, active: None, cursor_area: None }
}

/// At least one.
pub open spec fn at_least_one(n: i32) -> i32 {
    if n < 1 {
        1
    } else {
        n
    }
}

/// The area of a client's rectangle in the window's coordinates. An empty
/// rectangle counts as one pixel.
pub open spec fn area_of(origin: [i32; 2], rect: [i32; 4]) -> Area {
    (
        [(origin[0] + rect[0]) as i32, (origin[1] + rect[1]) as i32],
        [at_least_one(rect[2]), at_least_one(rect[3])],
    )
}

/// Whether the position of the area is in range.
pub open spec fn area_fits(origin: [i32; 2], rect: [i32; 4]) -> bool {
    &&& i32::MIN <= origin[0] + rect[0] <= i32::MAX
    &&& i32::MIN <= origin[1] + rect[1] <= i32::MAX
}

/// The bridge after an event. A context that is not active cannot turn the
/// host's input method off or move its cursor.
pub open spec fn after_event(ime: ImeView, event: FcitxEvent, origin: Option<[i32; 2]>) -> ImeView {
    match event {
        FcitxEvent::FocusChanged { conn, ic_path, focused, rect } => if focused {
            ImeView {
                active: Some((conn, ic_path@)),
                ime_enabled: Some(true),
                cursor_area: match (rect, origin) {
                    (Some(r), Some(o)) => Some(area_of(o, r)),
                    _ => ime.cursor_area,
                },
                ..ime
            }
        } else if ime.active == Some((conn, ic_path@)) {
            ImeView { active: None, ime_enabled: Some(false), ..ime }
        } else {
            ime
        },
        FcitxEvent::CursorRect { conn, ic_path, rect } => if ime.active == Some((conn, ic_path@)) {
            match origin {
                Some(o) => ImeView { cursor_area: Some(area_of(o, rect)), ..ime },
                None => ime,
            }
        } else {
            ime
        },
        FcitxEvent::IcDestroyed { conn, ic_path } => if ime.active == Some((conn, ic_path@)) {
            ImeView { active: None, ime_enabled: Some(false), ..ime }
        } else {
            ime
        },
    }
}

/// Whether the area that an event sets is in range.
pub open spec fn event_fits(ime: ImeView, event: FcitxEvent, origin: Option<[i32; 2]>) -> bool {
    match (event, origin) {
        (FcitxEvent::FocusChanged { focused, rect: Some(r), .. }, Some(o)) => focused
            ==> area_fits(o, r),
        (FcitxEvent::CursorRect { conn, ic_path, rect }, Some(o)) => ime.active == Some(
            (conn, ic_path@),
        ) ==> area_fits(o, rect),
        _ => true,
    }
}

/// The input-method bridge.
#[derive(Debug)]
pub struct ImeBridge {
    focused_surface: Option<SurfaceId>,
    ime_enabled: Option<bool>,
    active_fcitx_ic: Option<ActiveFcitxIc>,
    pending_cursor_area: Option<Area>,
}

/// What an optional context stands for.
pub open spec fn ic_name(ic: Option<ActiveFcitxIc>) -> Option<IcName> {
    match ic {
        Some(ic) => Some(ic@),
        None => None,
    }
}

impl View for ImeBridge {
    type V = ImeView;

    closed spec fn view(&self) -> ImeView {
        ImeView {
            focused_surface: self.focused_surface,
            ime_enabled: self.ime_enabled,
            active: ic_name(self.active_fcitx_ic),
            cursor_area: self.pending_cursor_area,
        }
    }
}

/// The larger of `n` and one.
fn one_at_least(n: i32) -> (m: i32)
    ensures
        m == at_least_one(n),
{
    if n < 1 {
        1
    } else {
        n
    }
}

/// The area of a client's rectangle in the window's coordinates.
fn place(origin: [i32; 2], rect: [i32; 4]) -> (area: Area)
    requires
        area_fits(origin, rect),
    ensures
        area == area_of(origin, rect),
{
    (
        [origin[0] + rect[0], origin[1] + rect[1]],
        [one_at_least(rect[2]), one_at_least(rect[3])],
    )
}

impl ImeBridge {
    /// Nothing is known and nothing waits.
    pub fn new() -> (ime: ImeBridge)
        ensures
            ime@ == fresh_ime(),
    {
        ImeBridge {
            focused_surface: None,
            ime_enabled: None,
            active_fcitx_ic: None,
            pending_cursor_area: None,
        }
    }

    /// The context that the host's input method serves.
    pub fn active_fcitx_ic(&self) -> (ic: Option<&ActiveFcitxIc>)
        ensures
            match ic {
                Some(ic) => self@.active == Some(ic@),
                None => self@.active is None,
            },
    {
        match &self.active_fcitx_ic {
            Some(ic) => Some(ic),
            None => None,
        }
    }

    /// Whether `(conn, ic_path)` is the active context.
    fn is_active(&self, conn: ConnId, ic_path: &str) -> (active: bool)
        ensures
            active == (self@.active == Some((conn, ic_path@))),
    {
        match &self.active_fcitx_ic {
            Some(ic) => ic.conn == conn && same_text(&ic.ic_path, ic_path),
            None => false,
        }
    }

    /// Fetches the cursor area that waits, once.
    pub fn take_pending_cursor_area(&mut self) -> (area: Option<Area>)
        ensures
            area == old(self)@.cursor_area,
            final(self)@ == (ImeView { cursor_area: None, ..old(self)@ }),
    {
        self.pending_cursor_area.take()
    }

    /// Fetches the decision on the host's input method that waits, once.
    pub fn take_ime_enabled(&mut self) -> (enabled: Option<bool>)
        ensures
            enabled == old(self)@.ime_enabled,
            final(self)@ == (ImeView { ime_enabled: None, ..old(self)@ }),
    {
        self.ime_enabled.take()
    }

    /// Follows what the broker observed of a context. `app_origin` is where the
    /// focused application stands in the window.
    pub fn on_fcitx_event(&mut self, event: FcitxEvent, app_origin: Option<[i32; 2]>)
        requires
            event_fits(old(self)@, event, app_origin),
        ensures
            final(self)@ == after_event(old(self)@, event, app_origin),
    {
        match event {
            FcitxEvent::FocusChanged { conn, ic_path, focused, rect } => {
                if focused {
                    self.active_fcitx_ic = Some(ActiveFcitxIc { conn, ic_path });
                    self.ime_enabled = Some(true);
                    if let (Some(r), Some(origin)) = (rect, app_origin) {
                        self.pending_cursor_area = Some(place(origin, r));
                    }
                } else if self.is_active(conn, &ic_path) {
                    self.active_fcitx_ic = None;
                    self.ime_enabled = Some(false);
                }
            },
            FcitxEvent::CursorRect { conn, ic_path, rect } => {
                if self.is_active(conn, &ic_path) {
                    if let Some(origin) = app_origin {
                        self.pending_cursor_area = Some(place(origin, rect));
                    }
                }
            },
            FcitxEvent::IcDestroyed { conn, ic_path } => {
                if self.is_active(conn, &ic_path) {
                    self.active_fcitx_ic = None;
                    self.ime_enabled = Some(false);
                }
            },
        }
    }

    /// Forgets everything when another workspace is shown, and turns the host's
    /// input method off until the next change of focus.
    pub fn reset_on_workspace_switch(&mut self)
        ensures
            final(self)@ == (ImeView { ime_enabled: Some(false), ..fresh_ime() }),
    {
        self.focused_surface = None;
        self.ime_enabled = Some(false);
        self.active_fcitx_ic = None;
        self.pending_cursor_area = None;
    }
}

/// Whether an event gives the focus to a context.
pub open spec fn gives_focus(event: FcitxEvent) -> bool {
    event matches FcitxEvent::FocusChanged { focused, .. } && focused
}

/// The context that an event is about.
pub open spec fn event_context(event: FcitxEvent) -> IcName {
    match event {
        FcitxEvent::FocusChanged { conn, ic_path, .. } => (conn, ic_path@),
        FcitxEvent::CursorRect { conn, ic_path, .. } => (conn, ic_path@),
        FcitxEvent::IcDestroyed { conn, ic_path } => (conn, ic_path@),
    }
}

/// A context that is not active changes nothing, unless it gets the focus; one
/// that gets it takes the place of the active one.
pub proof fn only_the_active_context_counts(
    ime: ImeView,
    event: FcitxEvent,
    origin: Option<[i32; 2]>,
)
    ensures
        !gives_focus(event) && ime.active != Some(event_context(event)) ==> after_event(
            ime,
            event,
            origin,
        ) == ime,
        gives_focus(event) ==> after_event(ime, event, origin).active == Some(event_context(event)),
{
}

/// A context that gets the focus and loses it again leaves no active context,
/// and the host's input method off.
pub proof fn focus_out_undoes_focus_in(
    ime: ImeView,
    conn: ConnId,
    ic_path: String,
    rect: Option<[i32; 4]>,
    origin: Option<[i32; 2]>,
)
    ensures
        ({
            let there = after_event(
                ime,
                FcitxEvent::FocusChanged { conn, ic_path, focused: true, rect },
                origin,
            );
            let back = after_event(
                there,
                FcitxEvent::FocusChanged { conn, ic_path, focused: false, rect },
                origin,
            );
            back.active is None && back.ime_enabled == Some(false)
        }),
{
}

// ---------------------------------------------------------------------------
// Text focus
// ---------------------------------------------------------------------------
/// A step of a change of the text focus.
#[derive(Debug, Clone, Copy, PartialEq, Eq, Structural)]
pub enum FocusStep {
    /// The text focus is to point at a surface, or at none.
    SetFocus(Option<SurfaceId>),
    /// The surface with the text focus is told that it loses it.
    Leave,
    /// The surface with the text focus is told that it has it.
    Enter,
}

/// The steps from one surface to another.
pub open spec fn transition(old: Option<SurfaceId>, new: Option<SurfaceId>) -> Seq<FocusStep> {
    if old == new {
        seq![]
    } else {
        (if old is Some {
            seq![FocusStep::SetFocus(old), FocusStep::Leave]
        } else {
            seq![]
        }) + seq![FocusStep::SetFocus(new)] + (if new is Some {
            seq![FocusStep::Enter]
        } else {
            seq![]
        })
    }
}

/// Where the text focus points after steps.
pub open spec fn focus_after(steps: Seq<FocusStep>, at: Option<SurfaceId>) -> Option<SurfaceId>
    decreases steps.len(),
{
    if steps.len() == 0 {
        at
    } else {
        match steps.last() {
            FocusStep::SetFocus(s) => s,
            _ => focus_after(steps.drop_last(), at),
        }
    }
}

/// What surfaces are told by steps: each with whether it has the focus.
pub open spec fn told(steps: Seq<FocusStep>, at: Option<SurfaceId>) -> Seq<
    (Option<SurfaceId>, bool),
>
    decreases steps.len(),
{
    if steps.len() == 0 {
        seq![]
    } else {
        let front = steps.drop_last();
        match steps.last() {
            FocusStep::SetFocus(_) => told(front, at),
            FocusStep::Leave => told(front, at).push((focus_after(front, at), false)),
            FocusStep::Enter => told(front, at).push((focus_after(front, at), true)),
        }
    }
}

/// A change of focus tells the old surface, and no other, that it loses the
/// focus, and then the new one that it has it; wherever the text focus pointed
/// before.
pub proof fn transition_tells_the_right_surfaces(
    old: Option<SurfaceId>,
    new: Option<SurfaceId>,
    at: Option<SurfaceId>,
)
    requires
        old != new,
    ensures
        focus_after(transition(old, new), at) == new,
        told(transition(old, new), at) == (if old is Some {
            seq![(old, false)]
        } else {
            seq![]
        }) + (if new is Some {
            seq![(new, true)]
        } else {
            seq![]
        }),
{
    reveal_with_fuel(focus_after, 5);
    reveal_with_fuel(told, 5);
    let steps = transition(old, new);
    let a = if old is Some {
        seq![FocusStep::SetFocus(old), FocusStep::Leave]
    } else {
        seq![]
    };
    let moved = a + seq![FocusStep::SetFocus(new)];
    assert(moved.drop_last() =~= a);
    if old is Some {
        assert(a.drop_last() =~= seq![FocusStep::SetFocus(old)]);
        assert(a.drop_last().drop_last() =~= seq![]);
        assert(told(a, at) =~= seq![(old, false)]);
    }
    if new is Some {
        assert(steps.drop_last() =~= moved);
    } else {
        assert(steps =~= moved);
    }
}

/// The steps from one surface to another. A surface can only be told while the
/// text focus points at it, so it points at the old one once more.
pub fn transition_focus(old: Option<SurfaceId>, new: Option<SurfaceId>) -> (steps: Vec<FocusStep>)
    ensures
        steps@ == transition(old, new),
{
    let mut steps: Vec<FocusStep> = Vec::new();
    if old == new {
        assert(steps@ =~= transition(old, new));
        return steps;
    }
    if old.is_some() {
        steps.push(FocusStep::SetFocus(old));
        steps.push(FocusStep::Leave);
    }
    steps.push(FocusStep::SetFocus(new));
    if new.is_some() {
        steps.push(FocusStep::Enter);
    }
    assert(steps@ =~= transition(old, new));
    steps
}

impl ImeBridge {
    /// The keyboard focus has moved. The steps are to be taken at once; the
    /// caller then finds out whether the client takes part in text input and
    /// reports it by [`ImeBridge::on_focus_probed`].
    pub fn on_focus_changed(&mut self, new_focus: Option<SurfaceId>) -> (steps: Vec<FocusStep>)
        ensures
            steps@ == transition(old(self)@.focused_surface, new_focus),
            final(self)@ == (ImeView { focused_surface: new_focus, ..old(self)@ }),
    {
        let old_focus = self.focused_surface.take();
        let steps = transition_focus(old_focus, new_focus);
        self.focused_surface = new_focus;
        steps
    }

    /// The focused client takes part in text input, or it does not: the host's
    /// input method is to be on or off.
    pub fn on_focus_probed(&mut self, enabled: bool)
        ensures
            final(self)@ == (ImeView { ime_enabled: Some(enabled), ..old(self)@ }),
    {
        self.ime_enabled = Some(enabled);
    }
}

// ---------------------------------------------------------------------------
// Events of the host's input method
// ---------------------------------------------------------------------------
/// An event of the host's input method.
#[derive(Debug, Clone, PartialEq, Eq)]
pub enum HostIme {
    Enabled,
    /// Text that is being composed, with the cursor in it as byte offsets.
    Preedit(String, Option<(usize, usize)>),
    /// Text that is final.
    Commit(String),
    Disabled,
}

/// A step towards the client with the text focus.
#[derive(Debug, Clone, PartialEq, Eq)]
pub enum ImeStep {
    Enter,
    Leave,
    PreeditString { text: Option<String>, begin: i32, end: i32 },
    CommitString { text: Option<String> },
    /// Ends a group of changes.
    Done,
}

/// What an [`ImeStep`] stands for.
pub enum ImeStepView {
    Enter,
    Leave,
    PreeditString { text: Option<Seq<char>>, begin: i32, end: i32 },
    CommitString { text: Option<Seq<char>> },
    Done,
}

impl View for ImeStep {
    type V = ImeStepView;

    open spec fn view(&self) -> ImeStepView {
        match self {
            ImeStep::Enter => ImeStepView::Enter,
            ImeStep::Leave => ImeStepView::Leave,
            ImeStep::PreeditString { text, begin, end } => ImeStepView::PreeditString {
                text: text_of(*text),
                begin: *begin,
                end: *end,
            },
            ImeStep::CommitString { text } => ImeStepView::CommitString { text: text_of(*text) },
            ImeStep::Done => ImeStepView::Done,
        }
    }
}

/// What a list of steps stands for.
pub open spec fn step_views(steps: Seq<ImeStep>) -> Seq<ImeStepView> {
    steps.map_values(|s: ImeStep| s@)
}

/// A byte offset as it is sent: in 32 bits, as far as it fits there.
pub open spec fn sent_offset(n: usize) -> i32 {
    wrapped(n as int % 0x1_0000_0000)
}

/// The step that takes back what was being composed.
pub open spec fn no_preedit() -> ImeStepView {
    ImeStepView::PreeditString { text: None, begin: 0, end: 0 }
}

/// The steps that follow an event.
pub open spec fn steps_for(event: HostIme) -> Seq<ImeStepView> {
    match event {
        HostIme::Enabled => seq![ImeStepView::Enter],
        HostIme::Preedit(text, cursor) => seq![
            ImeStepView::PreeditString {
                text: Some(text@),
                begin: match cursor {
                    Some((b, _)) => sent_offset(b),
                    None => NO_CURSOR,
                },
                end: match cursor {
                    Some((_, e)) => sent_offset(e),
                    None => NO_CURSOR,
                },
            },
            ImeStepView::Done,
        ],
        HostIme::Commit(text) => seq![
            no_preedit(),
            ImeStepView::CommitString { text: Some(text@) },
            ImeStepView::Done,
        ],
        HostIme::Disabled => seq![no_preedit(), ImeStepView::Done, ImeStepView::Leave],
    }
}

/// The composed text that a client shows after steps.
pub open spec fn shown_after(steps: Seq<ImeStepView>, shown: Option<Seq<char>>) -> Option<Seq<char>>
    decreases steps.len(),
{
    if steps.len() == 0 {
        shown
    } else {
        match steps.last() {
            ImeStepView::PreeditString { text, .. } => text,
            _ => shown_after(steps.drop_last(), shown),
        }
    }
}

/// A client shows the text that is being composed, and no more of it once it is
/// final or the input method is off; whatever it showed before.
pub proof fn composed_text_is_taken_back(event: HostIme, shown: Option<Seq<char>>)
    ensures
        shown_after(steps_for(event), shown) == match event {
            HostIme::Enabled => shown,
            HostIme::Preedit(text, _) => Some(text@),
            HostIme::Commit(_) => None,
            HostIme::Disabled => None,
        },
{
    reveal_with_fuel(shown_after, 4);
    let steps = steps_for(event);
    match event {
        HostIme::Enabled => {
            assert(steps.drop_last() =~= seq![]);
        },
        HostIme::Preedit(_, _) => {
            assert(steps.drop_last().last() == steps[0]);
        },
        HostIme::Commit(_) => {
            assert(steps.drop_last().last() == steps[1]);
            assert(steps.drop_last().drop_last().last() == steps[0]);
        },
        HostIme::Disabled => {
            assert(steps.drop_last().last() == steps[1]);
            assert(steps.drop_last().drop_last().last() == steps[0]);
        },
    }
}

/// A byte offset as it is sent.
fn send_offset(n: usize) -> (sent: i32)
    ensures
        sent == sent_offset(n),
{
    let low: u64 = n as u64 % 0x1_0000_0000;
    if low > 0x7fff_ffff {
        (low as i64 - 0x1_0000_0000) as i32
    } else {
        low as i32
    }
}

impl ImeBridge {
    /// The steps that follow an event of the host's input method.
    pub fn on_host_ime_event(&self, event: HostIme) -> (steps: Vec<ImeStep>)
        ensures
            step_views(steps@) == steps_for(event),
    {
        let ghost given = event;
        let mut steps: Vec<ImeStep> = Vec::new();
        match event {
            HostIme::Enabled => {
                steps.push(ImeStep::Enter);
            },
            HostIme::Preedit(text, cursor) => {
                let (begin, end): (i32, i32) = match cursor {
                    Some((b, e)) => (send_offset(b), send_offset(e)),
                    None => (NO_CURSOR, NO_CURSOR),
                };
                steps.push(ImeStep::PreeditString { text: Some(text), begin, end });
                steps.push(ImeStep::Done);
            },
            HostIme::Commit(text) => {
                steps.push(ImeStep::PreeditString { text: None, begin: 0, end: 0 });
                steps.push(ImeStep::CommitString { text: Some(text) });
                steps.push(ImeStep::Done);
            },
            HostIme::Disabled => {
                steps.push(ImeStep::PreeditString { text: None, begin: 0, end: 0 });
                steps.push(ImeStep::Done);
                steps.push(ImeStep::Leave);
            },
        }
        assert(step_views(steps@) =~= steps_for(given));
        steps
    }
}

/// Where the popup of the host's input method goes: the client's cursor
/// rectangle, moved to where the application stands, if that is known.
pub fn sync_ime_cursor_area(rect: Option<[i32; 4]>, app_loc: Option<[i32; 2]>) -> (area: Option<
    Area,
>)
    requires
        rect matches Some(r) ==> (app_loc matches Some(o) ==> area_fits(o, r)),
    ensures
        match rect {
            None => area is None,
            Some(r) => {
                let o = match app_loc {
                    Some(o) => o,
                    None => [0, 0],
                };
                area == Some(
                    ([(o[0] + r[0]) as i32, (o[1] + r[1]) as i32], [r[2], r[3]]),
                )
            },
        },
{
    match rect {
        None => None,
        Some(r) => {
            let o: [i32; 2] = match app_loc {
                Some(o) => o,
                None => [0, 0],
            };
            Some(([o[0] + r[0], o[1] + r[1]], [r[2], r[3]]))
        },
    }
}

} // verus!
