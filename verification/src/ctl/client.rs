//! The compositor's end of the control channel.

use vstd::prelude::*;

use crate::protocol::ProxyToEmskin;

verus! {

/// Why a connection could not be made.
#[derive(Debug, Clone, Copy, PartialEq, Eq, Structural)]
pub enum ConnectFailure {
    /// The socket is not there.
    NotFound,
    /// The socket is there, but nobody listens.
    ConnectionRefused,
    Other,
}

/// Pause between two attempts, in milliseconds.
pub const RETRY_PAUSE_MS: u64 = 10;

/// Whether to try again: while there is time, and as long as the proxy may just
/// not have bound its socket yet.
pub fn retry_connect(failure: ConnectFailure, before_deadline: bool) -> (retry: bool)
    ensures
        retry == (before_deadline && failure != ConnectFailure::Other),
{
    match failure {
        ConnectFailure::NotFound => before_deadline,
        ConnectFailure::ConnectionRefused => before_deadline,
        ConnectFailure::Other => false,
    }
}

/// Why the proxy is not ready.
#[derive(Debug, Clone, PartialEq, Eq)]
pub enum ReadyError {
    /// The first message was another one.
    Unexpected(ProxyToEmskin),
    /// The connection ended before a message.
    Closed,
}

/// Takes the first message from the proxy, which has to be `Ready`.
pub fn check_ready(first: Option<ProxyToEmskin>) -> (ready: Result<(), ReadyError>)
    ensures
        match first {
            Some(ProxyToEmskin::Ready) => ready is Ok,
            Some(other) => ready == Err::<(), ReadyError>(ReadyError::Unexpected(other)),
            None => ready == Err::<(), ReadyError>(ReadyError::Closed),
        },
{
    match first {
        Some(ProxyToEmskin::Ready) => Ok(()),
        Some(other) => Err(ReadyError::Unexpected(other)),
        None => Err(ReadyError::Closed),
    }
}

/// What came of a read that does not wait.
#[derive(Debug, Clone, PartialEq, Eq)]
pub enum ReadEvent {
    /// A message, or the end of the stream.
    Read(Option<ProxyToEmskin>),
    /// There is nothing to be read now.
    WouldBlock,
    Failed,
}

/// What a caller gets of it.
#[derive(Debug, Clone, PartialEq, Eq)]
pub enum Received {
    Message(ProxyToEmskin),
    Nothing,
    /// The read failed.
    ReadFailed,
    /// The read went well, but the socket could not be made to wait again.
    RestoreFailed,
}

/// Settles a read that does not wait, given whether the socket could be made to
/// wait again. A failed read is reported before a failed restore.
pub fn settle_recv(event: ReadEvent, restored: bool) -> (received: Received)
    ensures
        received == match event {
            ReadEvent::Failed => Received::ReadFailed,
            ReadEvent::WouldBlock => if restored {
                Received::Nothing
            } else {
                Received::RestoreFailed
            },
            ReadEvent::Read(message) => if !restored {
                Received::RestoreFailed
            } else {
                match message {
                    Some(m) => Received::Message(m),
                    None => Received::Nothing,
                }
            },
        },
{
    match event {
        ReadEvent::Failed => Received::ReadFailed,
        _ if !restored => Received::RestoreFailed,
        ReadEvent::WouldBlock => Received::Nothing,
        ReadEvent::Read(Some(m)) => Received::Message(m),
        ReadEvent::Read(None) => Received::Nothing,
    }
}

} // verus!
