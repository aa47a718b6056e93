//! Rules by which the broker rewrites messages.
//!
//! Each submodule owns one pattern: it tells by its header whether a message
//! matches, and if so changes the body in place. No rule touches a socket.
//!
//! - [`cursor`] translates the coordinates of `SetCursorRect` and
//!   `SetCursorLocation`.
//! - [`laws`] say which messages are translated, and what becomes of them.

pub mod cursor;
pub mod laws;
