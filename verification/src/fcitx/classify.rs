//! Recognition of fcitx method calls.
//!
//! A call is told by its interface, its member and the signature of its body;
//! the body is then read for the arguments. Everything else is none of the
//! broker's business and is forwarded as it is.
//!
//! `ProcessKeyEvent` is not among the calls: keys go to the real input method.

use vstd::prelude::*;

use super::{INPUT_CONTEXT_IFACE, INPUT_CONTEXT_IFACE_FCITX4, INPUT_METHOD_IFACE};
use crate::dbus::fields::{copy_text, Fields, FieldsView};
use crate::dbus::args::{
    arg_views, args_view, body_bytes, body_signature, first_kind, fits_args, kind_code,
    kind_of_arg, kinds_of, kinds_of_args, of_types, pair_views, readable_args, Arg, ArgKind,
    ArgView,
};
use crate::dbus::frame::{args_of, Frame, FrameView};
use crate::text::same_text;

verus! {

/// A recognised call with its arguments. `ic_path` is the path of the input
/// context that it was made on.
#[derive(Debug, Clone, PartialEq, Eq)]
pub enum FcitxMethod {
    /// `InputMethod1.CreateInputContext(a(ss)) -> (o, ay)`.
    CreateInputContext { hints: Vec<(String, String)> },
    /// `InputContext1.FocusIn()`.
    FocusIn { ic_path: String },
    /// `InputContext1.FocusOut()`.
    FocusOut { ic_path: String },
    /// `InputContext1.Reset()`.
    Reset { ic_path: String },
    /// `InputContext1.DestroyIC()`.
    DestroyIC { ic_path: String },
    /// `InputContext1.SetCapability(t)`.
    SetCapability { ic_path: String, capability: u64 },
    /// `InputContext1.SetCursorRect(iiii)`.
    SetCursorRect { ic_path: String, x: i32, y: i32, w: i32, h: i32 },
    /// `InputContext1.SetCursorRectV2(iiiid)`. The scale is the bit pattern of
    /// the double.
    SetCursorRectV2 { ic_path: String, x: i32, y: i32, w: i32, h: i32, scale: u64 },
    /// fcitx4: `InputContext.SetCursorLocation(ii)`.
    SetCursorLocation { ic_path: String, x: i32, y: i32 },
    /// `InputContext1.SetSurroundingText(suu)`.
    SetSurroundingText { ic_path: String, text: String, cursor: u32, anchor: u32 },
    /// `InputContext1.SetSurroundingTextPosition(uu)`.
    SetSurroundingTextPosition { ic_path: String, cursor: u32, anchor: u32 },
}

/// What a [`FcitxMethod`] stands for.
pub enum MethodView {
    CreateInputContext { hints: Seq<(Seq<char>, Seq<char>)> },
    FocusIn { ic_path: Seq<char> },
    FocusOut { ic_path: Seq<char> },
    Reset { ic_path: Seq<char> },
    DestroyIC { ic_path: Seq<char> },
    SetCapability { ic_path: Seq<char>, capability: u64 },
    SetCursorRect { ic_path: Seq<char>, x: i32, y: i32, w: i32, h: i32 },
    SetCursorRectV2 { ic_path: Seq<char>, x: i32, y: i32, w: i32, h: i32, scale: u64 },
    SetCursorLocation { ic_path: Seq<char>, x: i32, y: i32 },
    SetSurroundingText { ic_path: Seq<char>, text: Seq<char>, cursor: u32, anchor: u32 },
    SetSurroundingTextPosition { ic_path: Seq<char>, cursor: u32, anchor: u32 },
}

impl View for FcitxMethod {
    type V = MethodView;

    open spec fn view(&self) -> MethodView {
        match self {
            FcitxMethod::CreateInputContext { hints } => MethodView::CreateInputContext {
                hints: pair_views(hints@),
            },
            FcitxMethod::FocusIn { ic_path } => MethodView::FocusIn { ic_path: ic_path@ },
            FcitxMethod::FocusOut { ic_path } => MethodView::FocusOut { ic_path: ic_path@ },
            FcitxMethod::Reset { ic_path } => MethodView::Reset { ic_path: ic_path@ },
            FcitxMethod::DestroyIC { ic_path } => MethodView::DestroyIC { ic_path: ic_path@ },
            FcitxMethod::SetCapability { ic_path, capability } => MethodView::SetCapability {
                ic_path: ic_path@,
                capability: *capability,
            },
            FcitxMethod::SetCursorRect { ic_path, x, y, w, h } => MethodView::SetCursorRect {
                ic_path: ic_path@,
                x: *x,
                y: *y,
                w: *w,
                h: *h,
            },
            FcitxMethod::SetCursorRectV2 { ic_path, x, y, w, h, scale } =>
                MethodView::SetCursorRectV2 {
                ic_path: ic_path@,
                x: *x,
                y: *y,
                w: *w,
                h: *h,
                scale: *scale,
            },
            FcitxMethod::SetCursorLocation { ic_path, x, y } => MethodView::SetCursorLocation {
                ic_path: ic_path@,
                x: *x,
                y: *y,
            },
            FcitxMethod::SetSurroundingText { ic_path, text, cursor, anchor } =>
                MethodView::SetSurroundingText {
                ic_path: ic_path@,
                text: text@,
                cursor: *cursor,
                anchor: *anchor,
            },
            FcitxMethod::SetSurroundingTextPosition { ic_path, cursor, anchor } =>
                MethodView::SetSurroundingTextPosition {
                ic_path: ic_path@,
                cursor: *cursor,
                anchor: *anchor,
            },
        }
    }
}

/// The calls that are recognised, without their arguments.
#[derive(Debug, Clone, Copy, PartialEq, Eq, Structural)]
pub enum Call {
    CreateInputContext,
    FocusIn,
    FocusOut,
    Reset,
    DestroyIC,
    SetCapability,
    SetCursorRect,
    SetCursorRectV2,
    SetCursorLocation,
    SetSurroundingText,
    SetSurroundingTextPosition,
}

/// The interface, member and signature of a call.
pub open spec fn call_names(call: Call) -> (Seq<char>, Seq<char>, Seq<char>) {
    match call {
        Call::CreateInputContext => (INPUT_METHOD_IFACE@, "CreateInputContext"@, "a(ss)"@),
        Call::FocusIn => (INPUT_CONTEXT_IFACE@, "FocusIn"@, ""@),
        Call::FocusOut => (INPUT_CONTEXT_IFACE@, "FocusOut"@, ""@),
        Call::Reset => (INPUT_CONTEXT_IFACE@, "Reset"@, ""@),
        Call::DestroyIC => (INPUT_CONTEXT_IFACE@, "DestroyIC"@, ""@),
        Call::SetCapability => (INPUT_CONTEXT_IFACE@, "SetCapability"@, "t"@),
        Call::SetCursorRect => (INPUT_CONTEXT_IFACE@, "SetCursorRect"@, "iiii"@),
        Call::SetCursorRectV2 => (INPUT_CONTEXT_IFACE@, "SetCursorRectV2"@, "iiiid"@),
        Call::SetCursorLocation => (INPUT_CONTEXT_IFACE_FCITX4@, "SetCursorLocation"@, "ii"@),
        Call::SetSurroundingText => (INPUT_CONTEXT_IFACE@, "SetSurroundingText"@, "suu"@),
        Call::SetSurroundingTextPosition => (
            INPUT_CONTEXT_IFACE@,
            "SetSurroundingTextPosition"@,
            "uu"@,
        ),
    }
}

/// The signature of a body; no signature stands for an empty one.
pub open spec fn signature_or_empty(fields: FieldsView) -> Seq<char> {
    match fields.signature {
        Some(s) => s,
        None => ""@,
    }
}

/// Whether the header fields announce `call`.
pub open spec fn announces(fields: FieldsView, call: Call) -> bool {
    &&& fields.interface == Some(call_names(call).0)
    &&& fields.member == Some(call_names(call).1)
    &&& signature_or_empty(fields) == call_names(call).2
}

/// No two calls have the same member.
pub proof fn members_differ(fields: FieldsView, a: Call, b: Call)
    requires
        announces(fields, a),
        announces(fields, b),
    ensures
        a == b,
{
    reveal_strlit("CreateInputContext");
    reveal_strlit("FocusIn");
    reveal_strlit("FocusOut");
    reveal_strlit("Reset");
    reveal_strlit("DestroyIC");
    reveal_strlit("SetCapability");
    reveal_strlit("SetCursorRect");
    reveal_strlit("SetCursorRectV2");
    reveal_strlit("SetCursorLocation");
    reveal_strlit("SetSurroundingText");
    reveal_strlit("SetSurroundingTextPosition");
    assert("CreateInputContext"@.len() == 18 && "CreateInputContext"@[0] == 'C');
    assert("FocusIn"@.len() == 7);
    assert("FocusOut"@.len() == 8);
    assert("Reset"@.len() == 5);
    assert("DestroyIC"@.len() == 9);
    assert("SetCapability"@.len() == 13 && "SetCapability"@[4] == 'a');
    assert("SetCursorRect"@.len() == 13 && "SetCursorRect"@[4] == 'u');
    assert("SetCursorRectV2"@.len() == 15);
    assert("SetCursorLocation"@.len() == 17);
    assert("SetSurroundingText"@.len() == 18 && "SetSurroundingText"@[0] == 'S');
    assert("SetSurroundingTextPosition"@.len() == 26);
}

/// The call that the header fields announce.
pub open spec fn called(fields: FieldsView) -> Option<Call> {
    if exists|call: Call| announces(fields, call) {
        Some(choose|call: Call| announces(fields, call))
    } else {
        None
    }
}

/// Key events are not recognised, so that they reach the real input method.
pub proof fn key_events_are_not_recognised(fields: FieldsView)
    requires
        fields.member == Some("ProcessKeyEvent"@),
    ensures
        called(fields) is None,
{
    reveal_strlit("ProcessKeyEvent");
    reveal_strlit("CreateInputContext");
    reveal_strlit("FocusIn");
    reveal_strlit("FocusOut");
    reveal_strlit("Reset");
    reveal_strlit("DestroyIC");
    reveal_strlit("SetCapability");
    reveal_strlit("SetCursorRect");
    reveal_strlit("SetCursorRectV2");
    reveal_strlit("SetCursorLocation");
    reveal_strlit("SetSurroundingText");
    reveal_strlit("SetSurroundingTextPosition");
    assert("ProcessKeyEvent"@[0] == 'P');
    assert forall|call: Call| !announces(fields, call) by {
        assert(call_names(call).1[0] != 'P');
    }
}

/// The call with its arguments, where the path and the arguments are there.
pub open spec fn method_of(
    call: Call,
    path: Option<Seq<char>>,
    args: Option<Seq<ArgView>>,
) -> Option<MethodView> {
    match call {
        Call::CreateInputContext => match args {
            Some(a) => if a.len() == 1 {
                match a[0] {
                    ArgView::StrPairs(hints) => Some(MethodView::CreateInputContext { hints }),
                    _ => None,
                }
            } else {
                None
            },
            None => None,
        },
        _ => match path {
            None => None,
            Some(ic_path) => match call {
                Call::FocusIn => Some(MethodView::FocusIn { ic_path }),
                Call::FocusOut => Some(MethodView::FocusOut { ic_path }),
                Call::Reset => Some(MethodView::Reset { ic_path }),
                Call::DestroyIC => Some(MethodView::DestroyIC { ic_path }),
                _ => match args {
                    Some(a) => method_with(call, ic_path, a),
                    None => None,
                },
            },
        },
    }
}

/// A call on a context with its arguments, where they are of the right types.
pub open spec fn method_with(call: Call, ic_path: Seq<char>, a: Seq<ArgView>) -> Option<
    MethodView,
> {
    match call {
        Call::SetCapability => if a.len() == 1 {
            match a[0] {
                ArgView::U64(capability) => Some(MethodView::SetCapability { ic_path, capability }),
                _ => None,
            }
        } else {
            None
        },
        Call::SetCursorRect => if a.len() == 4 {
            match (a[0], a[1], a[2], a[3]) {
                (ArgView::I32(x), ArgView::I32(y), ArgView::I32(w), ArgView::I32(h)) => Some(
                    MethodView::SetCursorRect { ic_path, x, y, w, h },
                ),
                _ => None,
            }
        } else {
            None
        },
        Call::SetCursorRectV2 => if a.len() == 5 {
            match (a[0], a[1], a[2], a[3], a[4]) {
                (
                    ArgView::I32(x),
                    ArgView::I32(y),
                    ArgView::I32(w),
                    ArgView::I32(h),
                    ArgView::Double(scale),
                ) => Some(MethodView::SetCursorRectV2 { ic_path, x, y, w, h, scale }),
                _ => None,
            }
        } else {
            None
        },
        Call::SetCursorLocation => if a.len() == 2 {
            match (a[0], a[1]) {
                (ArgView::I32(x), ArgView::I32(y)) => Some(
                    MethodView::SetCursorLocation { ic_path, x, y },
                ),
                _ => None,
            }
        } else {
            None
        },
        Call::SetSurroundingText => if a.len() == 3 {
            match (a[0], a[1], a[2]) {
                (ArgView::Str(text), ArgView::U32(cursor), ArgView::U32(anchor)) => Some(
                    MethodView::SetSurroundingText { ic_path, text, cursor, anchor },
                ),
                _ => None,
            }
        } else {
            None
        },
        Call::SetSurroundingTextPosition => if a.len() == 2 {
            match (a[0], a[1]) {
                (ArgView::U32(cursor), ArgView::U32(anchor)) => Some(
                    MethodView::SetSurroundingTextPosition { ic_path, cursor, anchor },
                ),
                _ => None,
            }
        } else {
            None
        },
        _ => None,
    }
}

/// The call that a frame makes, given what was read from its body.
pub open spec fn classified(f: FrameView, args: Option<Seq<ArgView>>) -> Option<MethodView> {
    match called(f.fields) {
        Some(call) => method_of(call, f.fields.path, args),
        None => None,
    }
}

/// What an optional method stands for.
pub open spec fn method_view(method: Option<FcitxMethod>) -> Option<MethodView> {
    match method {
        Some(m) => Some(m@),
        None => None,
    }
}

/// Whether the names are those of `call`.
fn is_call(fields: &Fields, iface: &str, member: &str, signature: &str, call: Ghost<Call>) -> (is:
    bool)
    requires
        call_names(call@) == (iface@, member@, signature@),
    ensures
        is == announces(fields@, call@),
{
    let given: &str = match &fields.signature {
        Some(s) => s.as_str(),
        None => "",
    };
    match (&fields.interface, &fields.member) {
        (Some(i), Some(m)) => same_text(i, iface) && same_text(m, member) && same_text(
            given,
            signature,
        ),
        _ => false,
    }
}

/// Finds the call that the header fields announce.
pub fn find_call(fields: &Fields) -> (call: Option<Call>)
    ensures
        call == called(fields@),
{
    let found: Option<Call> = if is_call(
        fields,
        INPUT_METHOD_IFACE,
        "CreateInputContext",
        "a(ss)",
        Ghost(Call::CreateInputContext),
    ) {
        Some(Call::CreateInputContext)
    } else if is_call(fields, INPUT_CONTEXT_IFACE, "FocusIn", "", Ghost(Call::FocusIn)) {
        Some(Call::FocusIn)
    } else if is_call(fields, INPUT_CONTEXT_IFACE, "FocusOut", "", Ghost(Call::FocusOut)) {
        Some(Call::FocusOut)
    } else if is_call(fields, INPUT_CONTEXT_IFACE, "Reset", "", Ghost(Call::Reset)) {
        Some(Call::Reset)
    } else if is_call(fields, INPUT_CONTEXT_IFACE, "DestroyIC", "", Ghost(Call::DestroyIC)) {
        Some(Call::DestroyIC)
    } else if is_call(
        fields,
        INPUT_CONTEXT_IFACE,
        "SetCapability",
        "t",
        Ghost(Call::SetCapability),
    ) {
        Some(Call::SetCapability)
    } else if is_call(
        fields,
        INPUT_CONTEXT_IFACE,
        "SetCursorRect",
        "iiii",
        Ghost(Call::SetCursorRect),
    ) {
        Some(Call::SetCursorRect)
    } else if is_call(
        fields,
        INPUT_CONTEXT_IFACE,
        "SetCursorRectV2",
        "iiiid",
        Ghost(Call::SetCursorRectV2),
    ) {
        Some(Call::SetCursorRectV2)
    } else if is_call(
        fields,
        INPUT_CONTEXT_IFACE_FCITX4,
        "SetCursorLocation",
        "ii",
        Ghost(Call::SetCursorLocation),
    ) {
        Some(Call::SetCursorLocation)
    } else if is_call(
        fields,
        INPUT_CONTEXT_IFACE,
        "SetSurroundingText",
        "suu",
        Ghost(Call::SetSurroundingText),
    ) {
        Some(Call::SetSurroundingText)
    } else if is_call(
        fields,
        INPUT_CONTEXT_IFACE,
        "SetSurroundingTextPosition",
        "uu",
        Ghost(Call::SetSurroundingTextPosition),
    ) {
        Some(Call::SetSurroundingTextPosition)
    } else {
        None
    };
    proof {
        if let Some(call) = found {
            assert(announces(fields@, call));
            let other = choose|call: Call| announces(fields@, call);
            members_differ(fields@, call, other);
        } else {
            assert forall|call: Call| !announces(fields@, call) by {}
        }
    }
    found
}

/// A call on a context with its arguments, where they are of the right types.
fn with_args(call: Call, ic_path: String, a: &Vec<Arg>) -> (method: Option<FcitxMethod>)
    requires
        call != Call::CreateInputContext,
    ensures
        method_view(method) == method_with(call, ic_path@, arg_views(a@)),
{
    let ghost v = arg_views(a@);
    proof {
        assert forall|i: int| 0 <= i < a@.len() implies v[i] == #[trigger] a@[i]@ by {}
    }
    match call {
        Call::SetCapability => {
            if a.len() != 1 {
                return None;
            }
            match &a[0] {
                Arg::U64(capability) => Some(
                    FcitxMethod::SetCapability { ic_path, capability: *capability },
                ),
                _ => None,
            }
        },
        Call::SetCursorRect => {
            if a.len() != 4 {
                return None;
            }
            match (&a[0], &a[1], &a[2], &a[3]) {
                (Arg::I32(x), Arg::I32(y), Arg::I32(w), Arg::I32(h)) => Some(
                    FcitxMethod::SetCursorRect { ic_path, x: *x, y: *y, w: *w, h: *h },
                ),
                _ => None,
            }
        },
        Call::SetCursorRectV2 => {
            if a.len() != 5 {
                return None;
            }
            match (&a[0], &a[1], &a[2], &a[3], &a[4]) {
                (Arg::I32(x), Arg::I32(y), Arg::I32(w), Arg::I32(h), Arg::Double(scale)) => Some(
                    FcitxMethod::SetCursorRectV2 {
                        ic_path,
                        x: *x,
                        y: *y,
                        w: *w,
                        h: *h,
                        scale: *scale,
                    },
                ),
                _ => None,
            }
        },
        Call::SetCursorLocation => {
            if a.len() != 2 {
                return None;
            }
            match (&a[0], &a[1]) {
                (Arg::I32(x), Arg::I32(y)) => Some(
                    FcitxMethod::SetCursorLocation { ic_path, x: *x, y: *y },
                ),
                _ => None,
            }
        },
        Call::SetSurroundingText => {
            if a.len() != 3 {
                return None;
            }
            match (&a[0], &a[1], &a[2]) {
                (Arg::Str(text), Arg::U32(cursor), Arg::U32(anchor)) => Some(
                    FcitxMethod::SetSurroundingText {
                        ic_path,
                        text: text.clone(),
                        cursor: *cursor,
                        anchor: *anchor,
                    },
                ),
                _ => None,
            }
        },
        Call::SetSurroundingTextPosition => {
            if a.len() != 2 {
                return None;
            }
            match (&a[0], &a[1]) {
                (Arg::U32(cursor), Arg::U32(anchor)) => Some(
                    FcitxMethod::SetSurroundingTextPosition {
                        ic_path,
                        cursor: *cursor,
                        anchor: *anchor,
                    },
                ),
                _ => None,
            }
        },
        _ => None,
    }
}

/// The call that a frame makes, given what was read from its body.
pub fn classify_with(frame: &Frame<'_>, args: Option<Vec<Arg>>) -> (method: Option<FcitxMethod>)
    ensures
        method_view(method) == classified(frame@, args_view(args)),
{
    let call = match find_call(&frame.fields) {
        Some(call) => call,
        None => {
            return None;
        },
    };
    if call == Call::CreateInputContext {
        let mut a = match args {
            Some(a) => a,
            None => {
                return None;
            },
        };
        if a.len() != 1 {
            return None;
        }
        proof {
            assert(arg_views(a@)[0] == a@[0]@);
        }
        return match a.pop() {
            Some(Arg::StrPairs(hints)) => Some(FcitxMethod::CreateInputContext { hints }),
            _ => None,
        };
    }
    let ic_path = match copy_text(&frame.fields.path) {
        Some(path) => path,
        None => {
            return None;
        },
    };
    match call {
        Call::FocusIn => Some(FcitxMethod::FocusIn { ic_path }),
        Call::FocusOut => Some(FcitxMethod::FocusOut { ic_path }),
        Call::Reset => Some(FcitxMethod::Reset { ic_path }),
        Call::DestroyIC => Some(FcitxMethod::DestroyIC { ic_path }),
        _ => match args {
            Some(a) => with_args(call, ic_path, &a),
            None => None,
        },
    }
}

/// Whether a frame makes a call that is recognised, given whether its body was
/// read: the header fields announce one, name the context that it is made on,
/// and the body is read where the call has arguments.
pub open spec fn is_complete(f: FrameView, read: bool) -> bool {
    match called(f.fields) {
        Some(call) => {
            &&& call == Call::CreateInputContext || f.fields.path is Some
            &&& call_names(call).2.len() == 0 || read
        },
        None => false,
    }
}

/// The types in the signature of a call.
pub open spec fn call_kinds(call: Call) -> Seq<ArgKind> {
    match call {
        Call::CreateInputContext => seq![ArgKind::StrPairs],
        Call::SetCapability => seq![ArgKind::U64],
        Call::SetCursorRect => seq![ArgKind::I32, ArgKind::I32, ArgKind::I32, ArgKind::I32],
        Call::SetCursorRectV2 => seq![
            ArgKind::I32,
            ArgKind::I32,
            ArgKind::I32,
            ArgKind::I32,
            ArgKind::Double,
        ],
        Call::SetCursorLocation => seq![ArgKind::I32, ArgKind::I32],
        Call::SetSurroundingText => seq![ArgKind::Str, ArgKind::U32, ArgKind::U32],
        Call::SetSurroundingTextPosition => seq![ArgKind::U32, ArgKind::U32],
        _ => seq![],
    }
}

/// The signature of a call names its types.
proof fn call_signature(call: Call)
    ensures
        kinds_of(call_names(call).2) == Some(call_kinds(call)),
        call_names(call).2.len() == 0 <==> call_kinds(call).len() == 0,
{
    reveal_strlit("a(ss)");
    reveal_strlit("");
    reveal_strlit("t");
    reveal_strlit("iiii");
    reveal_strlit("iiiid");
    reveal_strlit("ii");
    reveal_strlit("suu");
    reveal_strlit("uu");
    let s = call_names(call).2;
    reveal_with_fuel(kinds_of, 6);
    let n = s.len() as int;
    assert(s.skip(n).len() == 0);
    if n > 1 {
        assert(s.skip(1).skip(1) =~= s.skip(2));
    }
    if n > 2 {
        assert(s.skip(2).skip(1) =~= s.skip(3));
    }
    if n > 3 {
        assert(s.skip(3).skip(1) =~= s.skip(4));
    }
    if n > 4 {
        assert(s.skip(4).skip(1) =~= s.skip(5));
    }
    assert(kinds_of(s) is Some);
    assert(kinds_of(s)->Some_0 =~= call_kinds(call));
}

/// A call is recognised where it is complete and its arguments are of the types
/// in its signature.
proof fn complete_is_recognised(f: FrameView, args: Option<Seq<ArgView>>)
    requires
        args matches Some(a) ==> f.fields.signature is Some && of_types(
            a,
            f.fields.signature->Some_0,
        ),
    ensures
        classified(f, args) is Some <==> is_complete(f, args is Some),
{
    if let Some(call) = called(f.fields) {
        assert(announces(f.fields, call));
        call_signature(call);
        if let Some(a) = args {
            let kinds = call_kinds(call);
            assert(kinds_of_args(a) == kinds);
            assert forall|i: int| 0 <= i < a.len() implies kind_of_arg(#[trigger] a[i])
                == kinds[i] by {
                assert(kinds_of_args(a)[i] == kind_of_arg(a[i]));
            }
        }
    }
}

/// Recognises a call. `None` for unrelated traffic, for a known member with
/// another signature, and for a body that does not fit its signature.
///
/// Where the body was written for a list of arguments, those are the arguments
/// of the call.
pub fn classify(frame: &Frame<'_>) -> (method: Option<FcitxMethod>)
    ensures
        method_view(method) == classified(frame@, args_of(frame@)),
        method is Some <==> is_complete(frame@, args_of(frame@) is Some),
        forall|written: Seq<ArgView>|
            readable_args(written) && fits_args(frame@.endian, written)
                && frame@.fields.signature == Some(body_signature(written)) && frame@.body
                == #[trigger] body_bytes(frame@.endian, written) ==> method_view(method)
                == classified(frame@, Some(written)),
{
    let args = frame.decode_body();
    proof {
        complete_is_recognised(frame@, args_view(args));
    }
    classify_with(frame, args)
}

} // verus!
