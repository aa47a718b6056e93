//! D-Bus wire format.
//!
//! - [`frame`] parses, inspects and builds messages; [`fields`] are their
//!   header fields, and [`message`] is the part of a message that the broker
//!   observes.
//! - [`sasl`] finds the end of the handshake in front of the messages.
//! - [`marshal`] holds the values of header fields, [`args`] those of a body, and
//!   [`endian`] the byte order of both.
//! - [`laws`], [`frame_laws`] and [`arg_laws`] say what holds of header fields and
//!   handshakes, of frames, and of bodies.

pub mod arg_laws;
pub mod args;
pub mod endian;
pub mod fields;
pub mod frame;
pub mod frame_laws;
pub mod laws;
pub mod marshal;
pub mod message;
pub mod sasl;
