//! Control channel by which the compositor tells the proxy where the focused
//! window is. See [`crate::protocol`] for the messages and [`crate::codec`] for
//! their frames; here is what the two ends do with them.

pub mod client;
pub mod laws;
pub mod server;
