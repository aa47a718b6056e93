//! Codes of the header fields.

use vstd::prelude::*;

verus! {

pub const PATH: u8 = 1;

pub const INTERFACE: u8 = 2;

pub const MEMBER: u8 = 3;

pub const ERROR_NAME: u8 = 4;

pub const REPLY_SERIAL: u8 = 5;

pub const DESTINATION: u8 = 6;

pub const SENDER: u8 = 7;

pub const SIGNATURE: u8 = 8;

pub const UNIX_FDS: u8 = 9;

} // verus!
