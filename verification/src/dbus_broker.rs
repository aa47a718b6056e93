//! The broker: it stands between embedded applications and the session bus.
//!
//! For each client there is a connection to the bus. Bytes from the client go
//! through the state machine of [`crate::broker`], with cursor coordinates moved
//! to where the focused window stands; bytes from the bus are passed on. What
//! the other side does not take at once waits in a buffer.
//!
//! Sockets are the business of the program around the library: it reports what
//! it read, accepted or wrote, and does what the broker says.

use std::collections::HashMap;

use vstd::prelude::*;
use vstd::std_specs::hash::group_hash_axioms;
use vstd::string::StrSliceExecFns;

use crate::broker::apply_cursor_rewrites;
use crate::broker::laws::{is_open, messages_tile, nothing_lost, tiled};
use crate::broker::rewrite::{
    in_message, message_in, rewriting_translates_each_message, rewritten, tiled_in_order,
};
use crate::broker::state::{
    are_headers_of, fed, fresh_stream, message_bytes, sendable, stream_bytes, BrokerError,
    BrokerErrorView, ConnectionState, StreamView,
};
use crate::bytes::append;
use crate::dbus::frame::FrameView;
use crate::rules::cursor::moved_message;
use crate::text::push_text;

verus! {

/// Number of a connection.
#[derive(Debug, Clone, Copy, PartialEq, Eq, Hash, Structural)]
pub struct ConnId(u64);

impl ConnId {
    /// The number.
    pub closed spec fn id(self) -> u64 {
        self.0
    }
}

/// A connection that was accepted, with the descriptors of its two sockets.
#[derive(Debug, Clone, Copy, PartialEq, Eq, Structural)]
pub struct ConnAccepted {
    pub id: ConnId,
    pub client_fd: i32,
    pub upstream_fd: i32,
}

/// What is to become of a connection after a read.
#[derive(Debug, Clone, Copy, PartialEq, Eq, Structural)]
pub enum PumpOutcome {
    /// It goes on.
    Active,
    /// One side is gone: it is to be dropped.
    PeerClosed,
}

// ---------------------------------------------------------------------------
// Bus addresses
// ---------------------------------------------------------------------------
/// The start of an address that names a socket by its path.
pub const UNIX_PATH_PREFIX: &'static str = "unix:path=";

/// The part of `text` in front of its first comma.
pub open spec fn before_comma(text: Seq<char>) -> Seq<char>
    decreases text.len(),
{
    if text.len() == 0 || text[0] == ',' {
        seq![]
    } else {
        seq![text[0]] + before_comma(text.skip(1))
    }
}

/// The socket path in a bus address of the form `unix:path=...[,guid=...]`.
pub open spec fn bus_path(addr: Seq<char>) -> Option<Seq<char>> {
    let n = UNIX_PATH_PREFIX@.len() as int;
    if addr.len() >= n && addr.take(n) == UNIX_PATH_PREFIX@ {
        Some(before_comma(addr.skip(n)))
    } else {
        None
    }
}

/// An address that names no socket path.
#[derive(Debug, Clone, PartialEq, Eq)]
pub struct UnsupportedScheme {
    pub addr: String,
}

impl UnsupportedScheme {
    /// The message that describes this error.
    pub fn message(&self) -> (text: String)
        ensures
            text@ == "unsupported bus scheme: "@ + self.addr@,
    {
        let mut text = String::new();
        push_text(&mut text, "unsupported bus scheme: ");
        push_text(&mut text, &self.addr);
        assert(text@ =~= "unsupported bus scheme: "@ + self.addr@);
        text
    }
}

/// What stands in front of the first comma.
proof fn before_comma_at(text: Seq<char>, n: int)
    requires
        0 <= n <= text.len(),
        forall|i: int| 0 <= i < n ==> text[i] != ',',
        n == text.len() || text[n] == ',',
    ensures
        before_comma(text) == text.take(n),
    decreases text.len(),
{
    if n > 0 {
        before_comma_at(text.skip(1), n - 1);
        assert(text.take(n) =~= seq![text[0]] + text.skip(1).take(n - 1));
    } else {
        assert(text.take(0) =~= seq![]);
    }
}

/// A path without a comma is read from the address that names it, whatever
/// follows a comma behind it.
pub proof fn bus_address_round_trip(path: Seq<char>, rest: Seq<char>)
    requires
        !path.contains(','),
    ensures
        bus_path(UNIX_PATH_PREFIX@ + path) == Some(path),
        bus_path(UNIX_PATH_PREFIX@ + path + seq![','] + rest) == Some(path),
{
    let prefix = UNIX_PATH_PREFIX@;
    let n = prefix.len() as int;
    let k = path.len() as int;
    assert forall|i: int| 0 <= i < k implies path[i] != ',' by {
        assert(path.contains(path[i]));
    }
    let plain = prefix + path;
    assert(plain.take(n) =~= prefix);
    assert(plain.skip(n) =~= path);
    before_comma_at(path, k);
    assert(path.take(k) =~= path);
    let longer = prefix + path + seq![','] + rest;
    let tail = path + seq![','] + rest;
    assert(longer.take(n) =~= prefix);
    assert(longer.skip(n) =~= tail);
    before_comma_at(tail, k);
    assert(tail.take(k) =~= path);
}

/// Reads the socket path from a bus address.
pub fn parse_unix_bus_address(addr: &str) -> (path: Result<String, UnsupportedScheme>)
    ensures
        match path {
            Ok(p) => bus_path(addr@) == Some(p@),
            Err(e) => bus_path(addr@) is None && e.addr@ == addr@,
        },
{
    let n: usize = UNIX_PATH_PREFIX.unicode_len();
    let len: usize = addr.unicode_len();
    if len < n {
        return Err(UnsupportedScheme { addr: addr.to_owned() });
    }
    let start = addr.substring_char(0, n);
    if !crate::text::same_text(start, UNIX_PATH_PREFIX) {
        assert(addr@.subrange(0, n as int) =~= addr@.take(n as int));
        return Err(UnsupportedScheme { addr: addr.to_owned() });
    }
    let ghost rest = addr@.skip(n as int);
    let mut end: usize = n;
    while end < len && addr.get_char(end) != ','
        invariant
            n <= end <= len,
            len == addr@.len(),
            rest == addr@.skip(n as int),
            forall|i: int| 0 <= i < end - n ==> rest[i] != ',',
        decreases len - end,
    {
        end = end + 1;
    }
    proof {
        before_comma_at(rest, end - n);
        assert(rest.take(end - n) =~= addr@.subrange(n as int, end as int));
        assert(addr@.subrange(0, n as int) =~= addr@.take(n as int));
    }
    Ok(addr.substring_char(n, end).to_owned())
}

// ---------------------------------------------------------------------------
// Connections
// ---------------------------------------------------------------------------
/// A client and its connection to the bus.
#[derive(Debug)]
struct Connection {
    state: ConnectionState,
    /// Bytes for the client.
    client_out: Vec<u8>,
    /// Bytes for the bus.
    upstream_out: Vec<u8>,
}

/// What is held of a connection.
#[verifier::ext_equal]
pub struct ConnView {
    /// The client's stream.
    pub stream: StreamView,
    /// Bytes that wait for the client.
    pub client_out: Seq<u8>,
    /// Bytes that wait for the bus.
    pub upstream_out: Seq<u8>,
}

impl View for Connection {
    type V = ConnView;

    closed spec fn view(&self) -> ConnView {
        ConnView {
            stream: self.state@,
            client_out: self.client_out@,
            upstream_out: self.upstream_out@,
        }
    }
}

/// A connection on which nothing has happened.
pub open spec fn fresh_conn() -> ConnView {
    ConnView { stream: fresh_stream(), client_out: seq![], upstream_out: seq![] }
}

/// What a [`DbusBroker`] stands for.
#[verifier::ext_equal]
pub struct BrokerView {
    /// Where the focused window stands; none leaves coordinates alone.
    pub offset: Option<(i32, i32)>,
    /// The connections by their numbers.
    pub conns: Map<u64, ConnView>,
    /// The number of the next connection.
    pub next_id: u64,
}

impl BrokerView {
    /// Numbers that are in use have been handed out.
    pub open spec fn wf(self) -> bool {
        forall|id: u64| #[trigger] self.conns.contains_key(id) ==> id < self.next_id
    }

    /// The broker with another state of one connection.
    pub open spec fn with_conn(self, id: u64, conn: ConnView) -> BrokerView {
        BrokerView { conns: self.conns.insert(id, conn), ..self }
    }
}

/// A broker without connections.
pub open spec fn fresh_broker() -> BrokerView {
    BrokerView { offset: None, conns: Map::empty(), next_id: 1 }
}

/// The broker.
#[derive(Debug)]
pub struct DbusBroker {
    offset: Option<(i32, i32)>,
    connections: HashMap<u64, Connection>,
    next_id: u64,
}

impl View for DbusBroker {
    type V = BrokerView;

    closed spec fn view(&self) -> BrokerView {
        BrokerView {
            offset: self.offset,
            conns: self.connections@.map_values(|c: Connection| c@),
            next_id: self.next_id,
        }
    }
}

/// What happened when a client was to be accepted and the bus to be dialled.
#[derive(Debug, Clone, Copy, PartialEq, Eq, Structural)]
pub enum AcceptEvent {
    /// No client is waiting.
    NothingPending,
    /// The client could not be accepted.
    AcceptFailed,
    /// The client was accepted, but the bus could not be reached.
    DialFailed,
    /// Both are connected, but a socket could not be made non-blocking.
    SetupFailed,
    /// Both are connected.
    Connected { client_fd: i32, upstream_fd: i32 },
}

/// Why no client was accepted, where it is for the caller to know.
#[derive(Debug, Clone, Copy, PartialEq, Eq, Structural)]
pub enum AcceptError {
    Accept,
    Setup,
}

impl DbusBroker {
    /// A broker without connections.
    pub fn new() -> (broker: DbusBroker)
        ensures
            broker@ == fresh_broker(),
            broker@.wf(),
    {
        broadcast use group_hash_axioms;

        let broker = DbusBroker { offset: None, connections: HashMap::new(), next_id: 1 };
        assert(broker@.conns =~= Map::empty());
        broker
    }

    /// Where the focused window stands.
    pub fn offset(&self) -> (offset: Option<(i32, i32)>)
        ensures
            offset == self@.offset,
    {
        self.offset
    }

    /// Sets where the focused window stands; `None` leaves coordinates alone.
    pub fn set_offset(&mut self, off: Option<(i32, i32)>)
        ensures
            final(self)@ == (BrokerView { offset: off, ..old(self)@ }),
    {
        self.offset = off;
    }

    /// Takes up a client that was accepted. Where the bus cannot be reached the
    /// client is dropped without an error; it will see its first write fail.
    pub fn accept_one(&mut self, event: AcceptEvent) -> (accepted: Result<
        Option<ConnAccepted>,
        AcceptError,
    >)
        requires
            event is Connected ==> old(self)@.next_id < u64::MAX,
            old(self)@.wf(),
        ensures
            final(self)@.wf(),
            match event {
                AcceptEvent::NothingPending => accepted == Ok::<
                    Option<ConnAccepted>,
                    AcceptError,
                >(None),
                AcceptEvent::DialFailed => accepted == Ok::<Option<ConnAccepted>, AcceptError>(
                    None,
                ),
                AcceptEvent::AcceptFailed => accepted == Err::<Option<ConnAccepted>, AcceptError>(
                    AcceptError::Accept,
                ),
                AcceptEvent::SetupFailed => accepted == Err::<Option<ConnAccepted>, AcceptError>(
                    AcceptError::Setup,
                ),
                AcceptEvent::Connected { client_fd, upstream_fd } => {
                    &&& accepted matches Ok(Some(a))
                    &&& a.id.id() == old(self)@.next_id
                    &&& a.client_fd == client_fd
                    &&& a.upstream_fd == upstream_fd
                },
            },
            final(self)@ == if event is Connected {
                BrokerView {
                    conns: old(self)@.conns.insert(old(self)@.next_id, fresh_conn()),
                    next_id: (old(self)@.next_id + 1) as u64,
                    ..old(self)@
                }
            } else {
                old(self)@
            },
    {
        broadcast use group_hash_axioms;

        match event {
            AcceptEvent::NothingPending => Ok(None),
            AcceptEvent::DialFailed => Ok(None),
            AcceptEvent::AcceptFailed => Err(AcceptError::Accept),
            AcceptEvent::SetupFailed => Err(AcceptError::Setup),
            AcceptEvent::Connected { client_fd, upstream_fd } => {
                let id: u64 = self.next_id;
                self.next_id = id + 1;
                let conn = Connection {
                    state: ConnectionState::new(),
                    client_out: Vec::new(),
                    upstream_out: Vec::new(),
                };
                assert(conn@ =~= fresh_conn());
                self.connections.insert(id, conn);
                assert(self@.conns =~= old(self)@.conns.insert(id, fresh_conn()));
                Ok(Some(ConnAccepted { id: ConnId(id), client_fd, upstream_fd }))
            },
        }
    }

    /// Forgets a connection.
    pub fn remove_connection(&mut self, id: ConnId)
        requires
            old(self)@.wf(),
        ensures
            final(self)@ == (BrokerView { conns: old(self)@.conns.remove(id.id()), ..old(self)@ }),
            final(self)@.wf(),
    {
        broadcast use group_hash_axioms;

        self.connections.remove(&id.0);
        assert(self@.conns =~= old(self)@.conns.remove(id.id()));
    }
}

// ---------------------------------------------------------------------------
// Bytes
// ---------------------------------------------------------------------------
/// What came of reading from a socket.
#[derive(Debug, Clone, Copy)]
pub enum ReadEvent<'a> {
    /// The peer has closed its end.
    Eof,
    /// Bytes.
    Data(&'a [u8]),
    /// There is nothing to be read now, or the read was interrupted.
    NotNow,
    Failed,
}

/// Whether to read again: a pump goes on until nothing is left to be read.
pub fn read_again(read: &ReadEvent<'_>) -> (again: bool)
    ensures
        again == (read is Data),
{
    match read {
        ReadEvent::Data(_) => true,
        _ => false,
    }
}

/// Why a connection cannot go on.
#[derive(Debug, Clone, PartialEq, Eq)]
pub enum PumpError {
    /// A read failed.
    Read,
    /// The client does not speak the protocol.
    Protocol(BrokerError),
}

/// What came of a chunk of the client's stream on its way to the bus.
pub open spec fn pumped(conn: ConnView, chunk: Seq<u8>, offset: Option<(i32, i32)>) -> (
    ConnView,
    Result<PumpOutcome, BrokerErrorView>,
) {
    let (stream, r) = fed(conn.stream, chunk);
    match r {
        Err(e) => (ConnView { stream, ..conn }, Err(e)),
        Ok(out) => (
            ConnView {
                stream,
                upstream_out: conn.upstream_out + match offset {
                    Some(delta) => rewritten(out.forward, out.messages, delta),
                    None => out.forward,
                },
                ..conn
            },
            Ok(PumpOutcome::Active),
        ),
    }
}

impl DbusBroker {
    /// Passes on what was read from a client. Cursor coordinates are moved to
    /// where the focused window stands.
    ///
    /// Frames that the client wrote one behind the other are each observed with
    /// their header.
    pub fn pump_client_to_upstream(&mut self, id: ConnId, read: ReadEvent<'_>) -> (outcome: Result<
        PumpOutcome,
        PumpError,
    >)
        requires
            old(self)@.wf(),
        ensures
            final(self)@.wf(),
            !old(self)@.conns.contains_key(id.id()) ==> final(self)@ == old(self)@ && outcome == Ok::<
                PumpOutcome,
                PumpError,
            >(PumpOutcome::PeerClosed),
            old(self)@.conns.contains_key(id.id()) ==> match read {
                ReadEvent::Eof => final(self)@ == old(self)@ && outcome == Ok::<
                    PumpOutcome,
                    PumpError,
                >(PumpOutcome::PeerClosed),
                ReadEvent::NotNow => final(self)@ == old(self)@ && outcome == Ok::<
                    PumpOutcome,
                    PumpError,
                >(PumpOutcome::Active),
                ReadEvent::Failed => final(self)@ == old(self)@ && outcome == Err::<
                    PumpOutcome,
                    PumpError,
                >(PumpError::Read),
                ReadEvent::Data(chunk) => {
                    let conn = old(self)@.conns[id.id()];
                    let (after, r) = pumped(conn, chunk@, old(self)@.offset);
                    &&& final(self)@ == old(self)@.with_conn(id.id(), after)
                    &&& match r {
                        Ok(o) => outcome == Ok::<PumpOutcome, PumpError>(o),
                        Err(e) => outcome matches Err(PumpError::Protocol(got)) && got@ == e,
                    }
                    &&& forall|frames: Seq<FrameView>|
                        sendable(frames) && message_bytes(conn.stream, chunk@) == Some(
                            #[trigger] stream_bytes(frames),
                        ) ==> (fed(conn.stream, chunk@).1 matches Ok(out) && out.messages.len()
                            == frames.len() && are_headers_of(out.messages, frames))
                },
            },
    {
        broadcast use group_hash_axioms;

        let mut conn = match self.connections.remove(&id.0) {
            Some(conn) => conn,
            None => {
                assert(self@.conns =~= old(self)@.conns);
                return Ok(PumpOutcome::PeerClosed);
            },
        };
        let ghost before = conn@;
        let outcome = match read {
            ReadEvent::Eof => Ok(PumpOutcome::PeerClosed),
            ReadEvent::NotNow => Ok(PumpOutcome::Active),
            ReadEvent::Failed => Err(PumpError::Read),
            ReadEvent::Data(chunk) => match conn.state.client_feed(chunk) {
                Err(e) => Err(PumpError::Protocol(e)),
                Ok(mut out) => {
                    if let Some(delta) = self.offset {
                        apply_cursor_rewrites(&mut out, delta);
                    }
                    append(&mut conn.upstream_out, &out.forward);
                    Ok(PumpOutcome::Active)
                },
            },
        };
        let ghost after = conn@;
        self.connections.insert(id.0, conn);
        assert(self@.conns =~= old(self)@.conns.insert(id.id(), after));
        assert(before == old(self)@.conns[id.id()]);
        proof {
            if !(read is Data) {
                assert(self@.conns =~= old(self)@.conns);
            } else {
                assert(after =~= pumped(before, read->Data_0@, old(self)@.offset).0);
            }
        }
        outcome
    }

    /// Passes on what was read from the bus, as it is.
    pub fn pump_upstream_to_client(&mut self, id: ConnId, read: ReadEvent<'_>) -> (outcome: Result<
        PumpOutcome,
        PumpError,
    >)
        requires
            old(self)@.wf(),
        ensures
            final(self)@.wf(),
            !old(self)@.conns.contains_key(id.id()) ==> final(self)@ == old(self)@ && outcome == Ok::<
                PumpOutcome,
                PumpError,
            >(PumpOutcome::PeerClosed),
            old(self)@.conns.contains_key(id.id()) ==> match read {
                ReadEvent::Eof => final(self)@ == old(self)@ && outcome == Ok::<
                    PumpOutcome,
                    PumpError,
                >(PumpOutcome::PeerClosed),
                ReadEvent::NotNow => final(self)@ == old(self)@ && outcome == Ok::<
                    PumpOutcome,
                    PumpError,
                >(PumpOutcome::Active),
                ReadEvent::Failed => final(self)@ == old(self)@ && outcome == Err::<
                    PumpOutcome,
                    PumpError,
                >(PumpError::Read),
                ReadEvent::Data(chunk) => {
                    let conn = old(self)@.conns[id.id()];
                    &&& outcome == Ok::<PumpOutcome, PumpError>(PumpOutcome::Active)
                    &&& final(self)@ == old(self)@.with_conn(
                        id.id(),
                        ConnView { client_out: conn.client_out + chunk@, ..conn },
                    )
                },
            },
    {
        broadcast use group_hash_axioms;

        let mut conn = match self.connections.remove(&id.0) {
            Some(conn) => conn,
            None => {
                assert(self@.conns =~= old(self)@.conns);
                return Ok(PumpOutcome::PeerClosed);
            },
        };
        let ghost before = conn@;
        let outcome = match read {
            ReadEvent::Eof => Ok(PumpOutcome::PeerClosed),
            ReadEvent::NotNow => Ok(PumpOutcome::Active),
            ReadEvent::Failed => Err(PumpError::Read),
            ReadEvent::Data(chunk) => {
                append(&mut conn.client_out, chunk);
                Ok(PumpOutcome::Active)
            },
        };
        let ghost after = conn@;
        self.connections.insert(id.0, conn);
        assert(self@.conns =~= old(self)@.conns.insert(id.id(), after));
        assert(before == old(self)@.conns[id.id()]);
        proof {
            if !(read is Data) {
                assert(self@.conns =~= old(self)@.conns);
            }
        }
        outcome
    }
}

/// What came of writing to a socket.
#[derive(Debug, Clone, Copy, PartialEq, Eq, Structural)]
pub enum WriteEvent {
    /// So many bytes were taken.
    Wrote(usize),
    /// The socket takes nothing now.
    WouldBlock,
    Interrupted,
    Failed,
}

/// What to do next with the bytes that wait.
#[derive(Debug, Clone, Copy, PartialEq, Eq, Structural)]
pub enum FlushStep {
    /// Write them.
    Write,
    /// Leave it for now; whether bytes still wait.
    Stop { pending: bool },
    /// Give up.
    Failed,
}

/// What waits after a write.
pub open spec fn left_after(waiting: Seq<u8>, event: WriteEvent) -> Seq<u8> {
    match event {
        WriteEvent::Wrote(n) => waiting.skip(n as int),
        _ => waiting,
    }
}

/// What to do after a write.
pub open spec fn step_after(waiting: Seq<u8>, event: WriteEvent) -> FlushStep {
    let left = left_after(waiting, event);
    match event {
        WriteEvent::Failed => FlushStep::Failed,
        WriteEvent::WouldBlock => FlushStep::Stop { pending: left.len() > 0 },
        WriteEvent::Wrote(n) => if n == 0 || left.len() == 0 {
            FlushStep::Stop { pending: left.len() > 0 }
        } else {
            FlushStep::Write
        },
        WriteEvent::Interrupted => if left.len() == 0 {
            FlushStep::Stop { pending: false }
        } else {
            FlushStep::Write
        },
    }
}

/// Takes from `waiting` what was written.
fn settle_write(waiting: &mut Vec<u8>, event: WriteEvent) -> (step: FlushStep)
    requires
        event matches WriteEvent::Wrote(n) ==> n <= old(waiting)@.len(),
    ensures
        final(waiting)@ == left_after(old(waiting)@, event),
        step == step_after(old(waiting)@, event),
{
    match event {
        WriteEvent::Failed => FlushStep::Failed,
        WriteEvent::WouldBlock => FlushStep::Stop { pending: waiting.len() > 0 },
        WriteEvent::Wrote(n) => {
            let left = waiting.split_off(n);
            *waiting = left;
            assert(waiting@ =~= old(waiting)@.skip(n as int));
            if n == 0 || waiting.len() == 0 {
                FlushStep::Stop { pending: waiting.len() > 0 }
            } else {
                FlushStep::Write
            }
        },
        WriteEvent::Interrupted => if waiting.len() == 0 {
            FlushStep::Stop { pending: false }
        } else {
            FlushStep::Write
        },
    }
}

impl DbusBroker {
    /// The bytes that wait for the bus; none for a connection that is gone.
    pub fn upstream_waiting(&self, id: ConnId) -> (waiting: &[u8])
        ensures
            waiting@ == if self@.conns.contains_key(id.id()) {
                self@.conns[id.id()].upstream_out
            } else {
                Seq::<u8>::empty()
            },
    {
        broadcast use group_hash_axioms;

        match self.connections.get(&id.0) {
            Some(conn) => conn.upstream_out.as_slice(),
            None => {
                let none: &[u8] = &[];
                assert(none@ =~= Seq::<u8>::empty());
                none
            },
        }
    }

    /// The bytes that wait for the client; none for a connection that is gone.
    pub fn client_waiting(&self, id: ConnId) -> (waiting: &[u8])
        ensures
            waiting@ == if self@.conns.contains_key(id.id()) {
                self@.conns[id.id()].client_out
            } else {
                Seq::<u8>::empty()
            },
    {
        broadcast use group_hash_axioms;

        match self.connections.get(&id.0) {
            Some(conn) => conn.client_out.as_slice(),
            None => {
                let none: &[u8] = &[];
                assert(none@ =~= Seq::<u8>::empty());
                none
            },
        }
    }

    /// Takes note of a write to the bus.
    pub fn flush_upstream_out(&mut self, id: ConnId, event: WriteEvent) -> (step: FlushStep)
        requires
            old(self)@.wf(),
            old(self)@.conns.contains_key(id.id()) ==> (event matches WriteEvent::Wrote(n) ==> n
                <= old(self)@.conns[id.id()].upstream_out.len()),
        ensures
            final(self)@.wf(),
            !old(self)@.conns.contains_key(id.id()) ==> final(self)@ == old(self)@ && step
                == (FlushStep::Stop { pending: false }),
            old(self)@.conns.contains_key(id.id()) ==> ({
                let conn = old(self)@.conns[id.id()];
                &&& step == step_after(conn.upstream_out, event)
                &&& final(self)@ == old(self)@.with_conn(
                    id.id(),
                    ConnView { upstream_out: left_after(conn.upstream_out, event), ..conn },
                )
            }),
    {
        broadcast use group_hash_axioms;

        let mut conn = match self.connections.remove(&id.0) {
            Some(conn) => conn,
            None => {
                assert(self@.conns =~= old(self)@.conns);
                return FlushStep::Stop { pending: false };
            },
        };
        let ghost before = conn@;
        assert(before == old(self)@.conns[id.id()]);
        let step = settle_write(&mut conn.upstream_out, event);
        let ghost after = conn@;
        self.connections.insert(id.0, conn);
        assert(self@.conns =~= old(self)@.conns.insert(id.id(), after));
        step
    }

    /// Takes note of a write to the client.
    pub fn flush_client_out(&mut self, id: ConnId, event: WriteEvent) -> (step: FlushStep)
        requires
            old(self)@.wf(),
            old(self)@.conns.contains_key(id.id()) ==> (event matches WriteEvent::Wrote(n) ==> n
                <= old(self)@.conns[id.id()].client_out.len()),
        ensures
            final(self)@.wf(),
            !old(self)@.conns.contains_key(id.id()) ==> final(self)@ == old(self)@ && step
                == (FlushStep::Stop { pending: false }),
            old(self)@.conns.contains_key(id.id()) ==> ({
                let conn = old(self)@.conns[id.id()];
                &&& step == step_after(conn.client_out, event)
                &&& final(self)@ == old(self)@.with_conn(
                    id.id(),
                    ConnView { client_out: left_after(conn.client_out, event), ..conn },
                )
            }),
    {
        broadcast use group_hash_axioms;

        let mut conn = match self.connections.remove(&id.0) {
            Some(conn) => conn,
            None => {
                assert(self@.conns =~= old(self)@.conns);
                return FlushStep::Stop { pending: false };
            },
        };
        let ghost before = conn@;
        assert(before == old(self)@.conns[id.id()]);
        let step = settle_write(&mut conn.client_out, event);
        let ghost after = conn@;
        self.connections.insert(id.0, conn);
        assert(self@.conns =~= old(self)@.conns.insert(id.id(), after));
        step
    }
}

impl Default for DbusBroker {
    fn default() -> (broker: DbusBroker)
        ensures
            broker@ == fresh_broker(),
    {
        DbusBroker::new()
    }
}

/// Bytes leave in the order in which they came, each of them once: what was
/// written and what still waits are what waited before, also when more has come
/// in between.
pub proof fn writes_are_in_order(waiting: Seq<u8>, more: Seq<u8>, n: usize)
    requires
        n <= waiting.len(),
    ensures
        waiting.take(n as int) + left_after(waiting, WriteEvent::Wrote(n)) == waiting,
        left_after(waiting, WriteEvent::Wrote(n)) + more == left_after(
            waiting + more,
            WriteEvent::Wrote(n),
        ),
{
    assert(waiting.take(n as int) + waiting.skip(n as int) =~= waiting);
    assert(waiting.skip(n as int) + more =~= (waiting + more).skip(n as int));
}

/// Without a focused window the bus gets what the client sent: what was held
/// back and the chunk are what is passed on and what is held back then.
pub proof fn pass_through_without_offset(conn: ConnView, chunk: Seq<u8>)
    requires
        is_open(conn.stream),
        pumped(conn, chunk, None).1 is Ok,
    ensures
        conn.upstream_out + conn.stream.pending + chunk == pumped(conn, chunk, None).0.upstream_out
            + pumped(conn, chunk, None).0.stream.pending,
{
    nothing_lost(conn.stream, chunk);
    let out = fed(conn.stream, chunk).1->Ok_0;
    let held = fed(conn.stream, chunk).0.pending;
    assert(conn.upstream_out + conn.stream.pending + chunk =~= conn.upstream_out + (
    conn.stream.pending + chunk));
    assert(conn.upstream_out + (out.forward + held) =~= conn.upstream_out + out.forward + held);
}

/// With a focused window the bus gets as many bytes, and those of each message
/// are the client's with its coordinates moved.
pub proof fn only_coordinates_change(conn: ConnView, chunk: Seq<u8>, delta: (i32, i32))
    requires
        is_open(conn.stream),
        pumped(conn, chunk, None).1 is Ok,
    ensures
        ({
            let plain = pumped(conn, chunk, None).0.upstream_out;
            let moved = pumped(conn, chunk, Some(delta)).0.upstream_out;
            let out = fed(conn.stream, chunk).1->Ok_0;
            let at = conn.upstream_out.len() as int;
            &&& moved.len() == plain.len()
            &&& moved.take(at) == conn.upstream_out
            &&& forall|i: int|
                0 <= i < out.messages.len() ==> message_in(
                    moved.skip(at),
                    #[trigger] out.messages[i],
                ) == moved_message(
                    message_in(plain.skip(at), out.messages[i]),
                    out.messages[i].header,
                    delta,
                )
            &&& forall|j: int|
                0 <= j < out.forward.len() && !in_message(out.messages, j)
                    ==> #[trigger] moved.skip(at)[j] == plain.skip(at)[j]
        }),
{
    let out = fed(conn.stream, chunk).1->Ok_0;
    messages_tile(conn.stream, chunk);
    let from = choose|from: nat|
        from <= out.forward.len() && (conn.stream.authed ==> from == 0) && #[trigger] tiled(
            out.forward,
            out.messages,
            from,
        );
    tiled_in_order(out.forward, out.messages, from);
    rewriting_translates_each_message(out.forward, out.messages, delta);
    let plain = pumped(conn, chunk, None).0.upstream_out;
    let moved = pumped(conn, chunk, Some(delta)).0.upstream_out;
    let at = conn.upstream_out.len() as int;
    assert(plain.skip(at) =~= out.forward);
    assert(moved.skip(at) =~= rewritten(out.forward, out.messages, delta));
    assert(moved.take(at) =~= conn.upstream_out);
}

/// The number of a new connection is that of no other.
pub proof fn numbers_are_fresh(broker: BrokerView)
    requires
        broker.wf(),
    ensures
        !broker.conns.contains_key(broker.next_id),
{
}

/// What happens on one connection leaves the others alone.
pub proof fn connections_are_independent(broker: BrokerView, id: u64, conn: ConnView, other: u64)
    requires
        id != other,
    ensures
        broker.with_conn(id, conn).conns.contains_key(other) == broker.conns.contains_key(other),
        broker.conns.contains_key(other) ==> broker.with_conn(id, conn).conns[other]
            == broker.conns[other],
{
}

/// What the broker observes of input contexts.
#[allow(inconsistent_fields)]
#[derive(Debug, Clone, PartialEq, Eq)]
pub enum FcitxEvent {
    /// A context got or lost the focus; `rect` is its last cursor rectangle.
    FocusChanged { conn: ConnId, ic_path: String, focused: bool, rect: Option<[i32; 4]> },
    /// A context's cursor moved.
    CursorRect { conn: ConnId, ic_path: String, rect: [i32; 4] },
    /// A context is gone.
    IcDestroyed { conn: ConnId, ic_path: String },
}

} // verus!
