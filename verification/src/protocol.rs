//! Messages on the control socket between the compositor and the proxy.
//!
//! - `Ready` is the startup barrier: the compositor waits for it before it
//!   starts anything that will use the bus.
//! - `RectChanged` may be dropped under load; `ClientBorn` and `CtxGone` have to
//!   arrive, for they bracket what is known of a client.

use vstd::prelude::*;

verus! {

/// Rectangle in the compositor window's coordinates (x, y, w, h).
pub type Rect = [i32; 4];

/// Handle of a client, given out by the compositor.
pub type Ctx = u64;

/// Messages from the compositor to the proxy.
#[derive(Debug, Clone, PartialEq, Eq)]
pub enum EmskinToProxy {
    /// A new client has shown its first window.
    ClientBorn { pid: u32, ctx: Ctx },
    /// Keyboard focus moved to `ctx`, whose surface takes `rect`.
    FocusChanged { ctx: Ctx, rect: Rect },
    /// The rectangle of the focused client changed.
    RectChanged { ctx: Ctx, rect: Rect },
    /// Several rectangles changed at once.
    BulkRects { updates: Vec<(Ctx, Rect)> },
    /// Nothing has focus.
    FocusCleared,
    /// Another workspace is shown.
    WorkspaceSwitched { workspace_id: u64 },
    /// A client is gone.
    CtxGone { ctx: Ctx },
    /// The proxy is to exit.
    Shutdown,
}

/// Messages from the proxy to the compositor.
#[derive(Debug, Clone, PartialEq, Eq)]
pub enum ProxyToEmskin {
    /// The bus socket is listening.
    Ready,
    /// Something that is worth a line in the compositor's log.
    Error { context: String, message: String },
    /// A sign of life.
    Stats { active_conns: u32, msg_rate: u32 },
}

} // verus!
