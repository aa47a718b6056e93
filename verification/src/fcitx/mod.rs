//! The fcitx input-method protocol, as far as the broker speaks it.

use vstd::prelude::*;

pub mod classify;
pub mod ic;
pub mod laws;
pub mod reply;

verus! {

/// Interface on which input contexts are created.
pub const INPUT_METHOD_IFACE: &'static str = "org.fcitx.Fcitx.InputMethod1";

/// Interface of an input context.
pub const INPUT_CONTEXT_IFACE: &'static str = "org.fcitx.Fcitx.InputContext1";

/// Interface of an input context in fcitx4.
pub const INPUT_CONTEXT_IFACE_FCITX4: &'static str = "org.fcitx.Fcitx.InputContext";

} // verus!
