//! State of the compositor.

pub mod ime;
pub mod laws;
