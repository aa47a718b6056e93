//! What the broker does with the bytes of one connection: a state machine that
//! takes raw socket bytes and gives the bytes to forward, together with the
//! messages that it saw among them.
//!
//! Sockets are the business of the program around the library.
//!
//! [`laws`] hold of a stream however it is cut into chunks, and [`pump_laws`] of
//! what the bus gets of it.

pub mod laws;
pub mod offset;
pub mod pump_laws;
pub mod rewrite;
pub mod state;

pub use rewrite::apply_cursor_rewrites;
