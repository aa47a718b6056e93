//! Per-connection state machine.
//!
//! Two independent byte streams run for each client:
//!
//! - **client to bus**: the handshake is forwarded byte by byte as it arrives,
//!   for the bus answers each of its lines. After `BEGIN\r\n` bytes are held back
//!   until a message is complete; the message is then forwarded as a whole, and
//!   its header is handed out so that rules can match on it.
//! - **bus to client**: passed through unchanged.

use vstd::prelude::*;

use crate::bytes::{append, copy_range};
use crate::dbus::frame::{
    as_written, decodable, error_text, frame_bytes, frame_size, frame_size_bounds,
    frame_size_of_written, ErrorView, FrameView, MAX_MESSAGE_SIZE,
};
use crate::dbus::message::{self, header_of, parsed_header, Header, HeaderView, MessageError};
use crate::dbus::sasl::{self, begin_end, begin_end_stable, sasl_error_text, SaslError};
use crate::text::push_text;

verus! {

/// What part of the client's stream is being read.
#[derive(Debug, Clone, Copy, PartialEq, Eq, Structural)]
enum Phase {
    Auth,
    Messages,
}

/// One complete message among forwarded bytes.
#[derive(Debug, Clone, PartialEq, Eq)]
pub struct ObservedMessage {
    pub header: Header,
    /// Where the message starts in [`Output::forward`].
    pub offset: usize,
    /// How many bytes it takes.
    pub length: usize,
}

/// What an [`ObservedMessage`] stands for.
#[verifier::ext_equal]
pub struct ObservedView {
    pub header: HeaderView,
    pub offset: nat,
    pub length: nat,
}

impl View for ObservedMessage {
    type V = ObservedView;

    open spec fn view(&self) -> ObservedView {
        ObservedView {
            header: self.header@,
            offset: self.offset as nat,
            length: self.length as nat,
        }
    }
}

impl ObservedMessage {
    /// The bytes of [`Output::forward`] that the message takes.
    pub fn range(&self) -> (range: std::ops::Range<usize>)
        requires
            self.offset + self.length <= usize::MAX,
        ensures
            range.start == self.offset,
            range.end == self.offset + self.length,
    {
        self.offset..self.offset + self.length
    }
}

/// What came of one chunk of bytes.
#[derive(Debug, PartialEq, Eq)]
pub struct Output {
    /// Bytes for the opposite peer, in order.
    pub forward: Vec<u8>,
    /// The complete messages among them, in order.
    pub messages: Vec<ObservedMessage>,
}

/// What an [`Output`] stands for.
#[verifier::ext_equal]
pub struct OutputView {
    pub forward: Seq<u8>,
    pub messages: Seq<ObservedView>,
}

/// What a list of messages stands for.
pub open spec fn observed_views(messages: Seq<ObservedMessage>) -> Seq<ObservedView> {
    messages.map_values(|m: ObservedMessage| m@)
}

impl View for Output {
    type V = OutputView;

    open spec fn view(&self) -> OutputView {
        OutputView { forward: self.forward@, messages: observed_views(self.messages@) }
    }
}

impl Default for Output {
    fn default() -> (out: Output)
        ensures
            out@ == (OutputView { forward: seq![], messages: seq![] }),
    {
        let out = Output { forward: Vec::new(), messages: Vec::new() };
        assert(out@ =~= (OutputView { forward: seq![], messages: seq![] }));
        out
    }
}

/// Why a connection cannot go on.
#[derive(Debug, Clone, PartialEq, Eq)]
pub enum BrokerError {
    Sasl(SaslError),
    Message(MessageError),
}

/// What a [`BrokerError`] stands for.
pub enum BrokerErrorView {
    Sasl(SaslError),
    Message(ErrorView),
}

impl View for BrokerError {
    type V = BrokerErrorView;

    open spec fn view(&self) -> BrokerErrorView {
        match self {
            BrokerError::Sasl(e) => BrokerErrorView::Sasl(*e),
            BrokerError::Message(e) => BrokerErrorView::Message(e@),
        }
    }
}

/// The message that describes an error.
pub open spec fn broker_error_text(e: BrokerErrorView) -> Seq<char> {
    match e {
        BrokerErrorView::Sasl(e) => "SASL error: "@ + sasl_error_text(e),
        BrokerErrorView::Message(e) => "message error: "@ + error_text(e),
    }
}

impl BrokerError {
    /// The message that describes this error.
    pub fn message(&self) -> (text: String)
        ensures
            text@ == broker_error_text(self@),
    {
        let mut text = String::new();
        match self {
            BrokerError::Sasl(e) => {
                push_text(&mut text, "SASL error: ");
                push_text(&mut text, &e.message());
            },
            BrokerError::Message(e) => {
                push_text(&mut text, "message error: ");
                push_text(&mut text, &e.message());
            },
        }
        assert(text@ =~= broker_error_text(self@));
        text
    }
}

impl From<SaslError> for BrokerError {
    fn from(e: SaslError) -> BrokerError {
        BrokerError::Sasl(e)
    }
}

impl vstd::std_specs::convert::FromSpecImpl<SaslError> for BrokerError {
    open spec fn obeys_from_spec() -> bool {
        true
    }

    open spec fn from_spec(e: SaslError) -> BrokerError {
        BrokerError::Sasl(e)
    }
}

impl From<MessageError> for BrokerError {
    fn from(e: MessageError) -> BrokerError {
        BrokerError::Message(e)
    }
}

impl vstd::std_specs::convert::FromSpecImpl<MessageError> for BrokerError {
    open spec fn obeys_from_spec() -> bool {
        true
    }

    open spec fn from_spec(e: MessageError) -> BrokerError {
        BrokerError::Message(e)
    }
}

/// What a run of bytes holds: the complete messages that lead it, how many
/// bytes they take, and the error that ends them, if one does.
#[verifier::ext_equal]
pub struct Drained {
    pub messages: Seq<ObservedView>,
    pub taken: nat,
    pub error: Option<ErrorView>,
}

/// The complete messages that lead `buf`, the first of them at offset `at`.
pub open spec fn drained(buf: Seq<u8>, at: nat) -> Drained
    decreases buf.len(),
    via drained_decreases
{
    match frame_size(buf) {
        Err(e) => Drained { messages: seq![], taken: 0, error: Some(e) },
        Ok(None) => Drained { messages: seq![], taken: 0, error: None },
        Ok(Some(n)) => if buf.len() < n {
            Drained { messages: seq![], taken: 0, error: None }
        } else {
            match parsed_header(buf.take(n as int)) {
                Err(e) => Drained { messages: seq![], taken: 0, error: Some(e) },
                Ok(header) => {
                    let rest = drained(buf.skip(n as int), at + n);
                    Drained {
                        messages: seq![ObservedView { header, offset: at, length: n }]
                            + rest.messages,
                        taken: n + rest.taken,
                        error: rest.error,
                    }
                },
            }
        },
    }
}

#[via_fn]
proof fn drained_decreases(buf: Seq<u8>, at: nat) {
    frame_size_bounds(buf);
}

/// The bytes of frames in a row.
pub open spec fn stream_bytes(frames: Seq<FrameView>) -> Seq<u8>
    decreases frames.len(),
{
    if frames.len() == 0 {
        seq![]
    } else {
        frame_bytes(frames[0]) + stream_bytes(frames.skip(1))
    }
}

/// Whether each of the frames is accepted and read back from its bytes.
pub open spec fn sendable(frames: Seq<FrameView>) -> bool {
    forall|i: int|
        0 <= i < frames.len() ==> decodable(#[trigger] frames[i]) && frame_bytes(frames[i]).len()
            <= MAX_MESSAGE_SIZE
}

/// Whether `messages` are the headers of the frames, in order.
pub open spec fn are_headers_of(messages: Seq<ObservedView>, frames: Seq<FrameView>) -> bool {
    &&& messages.len() <= frames.len()
    &&& forall|i: int|
        0 <= i < messages.len() ==> (#[trigger] messages[i]).header == header_of(
            as_written(frames[i]),
        )
}

/// The bytes of a message that was taken from `buf`, whose first byte has
/// offset `at`.
pub open spec fn bytes_of(m: ObservedView, buf: Seq<u8>, at: nat) -> Seq<u8> {
    buf.subrange(m.offset - at, m.offset - at + m.length)
}

/// Whether a written frame is read back wherever one stands among the messages
/// of `d`, and none stands where they end in an error.
#[verifier::opaque]
pub open spec fn reads_written(d: Drained, buf: Seq<u8>, at: nat) -> bool {
    &&& forall|i: int|
        0 <= i < d.messages.len() ==> at <= (#[trigger] d.messages[i]).offset
            && d.messages[i].offset + d.messages[i].length <= at + d.taken
    &&& forall|i: int, f: FrameView|
        0 <= i < d.messages.len() && decodable(f) && #[trigger] frame_bytes(f) == bytes_of(
            #[trigger] d.messages[i],
            buf,
            at,
        ) ==> d.messages[i].header == header_of(as_written(f))
    &&& d.error is Some ==> forall|f: FrameView|
        decodable(f) && frame_bytes(f).len() <= MAX_MESSAGE_SIZE ==> !(#[trigger] frame_bytes(
            f,
        )).is_prefix_of(buf.skip(d.taken as int))
}

/// One more message is taken.
proof fn reads_written_push(
    messages: Seq<ObservedView>,
    taken: nat,
    buf: Seq<u8>,
    at: nat,
    next: ObservedView,
)
    requires
        reads_written(Drained { messages, taken, error: None }, buf, at),
        next.offset == at + taken,
        forall|f: FrameView|
            decodable(f) && #[trigger] frame_bytes(f) == bytes_of(next, buf, at) ==> next.header
                == header_of(as_written(f)),
    ensures
        reads_written(
            Drained { messages: messages.push(next), taken: taken + next.length, error: None },
            buf,
            at,
        ),
{
    reveal(reads_written);
    let d = Drained { messages: messages.push(next), taken: taken + next.length, error: None };
    assert forall|i: int| 0 <= i < d.messages.len() implies at <= (
    #[trigger] d.messages[i]).offset && d.messages[i].offset + d.messages[i].length <= at
        + d.taken by {
        if i < messages.len() {
            assert(d.messages[i] == messages[i]);
        }
    }
    assert forall|i: int, f: FrameView|
        0 <= i < d.messages.len() && decodable(f) && #[trigger] frame_bytes(f) == bytes_of(
            #[trigger] d.messages[i],
            buf,
            at,
        ) implies d.messages[i].header == header_of(as_written(f)) by {
        if i < messages.len() {
            assert(d.messages[i] == messages[i]);
        }
    }
}

/// The messages end in an error.
proof fn reads_written_error(
    messages: Seq<ObservedView>,
    taken: nat,
    buf: Seq<u8>,
    at: nat,
    error: ErrorView,
)
    requires
        reads_written(Drained { messages, taken, error: None }, buf, at),
        forall|f: FrameView|
            decodable(f) && frame_bytes(f).len() <= MAX_MESSAGE_SIZE ==> !(#[trigger] frame_bytes(
                f,
            )).is_prefix_of(buf.skip(taken as int)),
    ensures
        reads_written(Drained { messages, taken, error: Some(error) }, buf, at),
{
    reveal(reads_written);
    let d = Drained { messages, taken, error: None };
    let e = Drained { messages, taken, error: Some(error) };
    assert forall|i: int| 0 <= i < e.messages.len() implies at <= (
    #[trigger] e.messages[i]).offset && e.messages[i].offset + e.messages[i].length <= at
        + e.taken by {
        assert(d.messages[i] == e.messages[i]);
    }
    assert forall|i: int, f: FrameView|
        0 <= i < e.messages.len() && decodable(f) && #[trigger] frame_bytes(f) == bytes_of(
            #[trigger] e.messages[i],
            buf,
            at,
        ) implies e.messages[i].header == header_of(as_written(f)) by {
        assert(d.messages[i] == e.messages[i]);
    }
}

/// What a [`ConnectionState`] holds of the client's stream.
#[verifier::ext_equal]
pub struct StreamView {
    /// Whether the handshake is over.
    pub authed: bool,
    /// The handshake so far.
    pub auth: Seq<u8>,
    /// The start of a message that is not complete.
    pub pending: Seq<u8>,
}

impl StreamView {
    /// Only the part of the stream that is being read is held.
    pub open spec fn wf(self) -> bool {
        if self.authed {
            self.auth.len() == 0
        } else {
            self.pending.len() == 0
        }
    }
}

/// The state of a new connection.
pub open spec fn fresh_stream() -> StreamView {
    StreamView { authed: false, auth: seq![], pending: seq![] }
}

/// What comes of `chunk` once the handshake is over, behind the bytes `lead` of
/// the chunk that still belong to it.
pub open spec fn fed_messages(s: StreamView, lead: Seq<u8>, chunk: Seq<u8>) -> (
    StreamView,
    Result<OutputView, BrokerErrorView>,
) {
    let pending = s.pending + chunk;
    let d = drained(pending, lead.len());
    (
        StreamView { pending: pending.skip(d.taken as int), ..s },
        match d.error {
            Some(e) => Err(BrokerErrorView::Message(e)),
            None => Ok(
                OutputView {
                    forward: lead + pending.take(d.taken as int),
                    messages: d.messages,
                },
            ),
        },
    )
}

/// What comes of a chunk of the client's stream.
pub open spec fn fed(s: StreamView, chunk: Seq<u8>) -> (
    StreamView,
    Result<OutputView, BrokerErrorView>,
) {
    if s.authed {
        fed_messages(s, seq![], chunk)
    } else {
        let auth = s.auth + chunk;
        match begin_end(auth) {
            Err(e) => (StreamView { auth, ..s }, Err(BrokerErrorView::Sasl(e))),
            Ok(None) => (
                StreamView { auth, ..s },
                Ok(OutputView { forward: chunk, messages: seq![] }),
            ),
            Ok(Some(end)) => {
                let split = if end > s.auth.len() {
                    end - s.auth.len()
                } else {
                    0
                };
                fed_messages(
                    StreamView { authed: true, auth: seq![], ..s },
                    chunk.take(split),
                    chunk.skip(split),
                )
            },
        }
    }
}

/// The bytes of messages that are there with `chunk`, once the handshake is
/// over.
pub open spec fn message_bytes(s: StreamView, chunk: Seq<u8>) -> Option<Seq<u8>> {
    if s.authed {
        Some(s.pending + chunk)
    } else {
        match begin_end(s.auth + chunk) {
            Ok(Some(end)) => Some(
                s.pending + chunk.skip(
                    if end > s.auth.len() {
                        end - s.auth.len()
                    } else {
                        0
                    },
                ),
            ),
            _ => None,
        }
    }
}

/// Whether the bytes of frames give one message for each of them, with its
/// header, and leave nothing.
pub open spec fn observes(d: Drained, frames: Seq<FrameView>) -> bool {
    &&& d.error is None
    &&& d.taken == stream_bytes(frames).len()
    &&& d.messages.len() == frames.len()
    &&& are_headers_of(d.messages, frames)
}

/// A result with its value and its error taken by what they stand for.
pub open spec fn fed_view(r: Result<Output, BrokerError>) -> Result<OutputView, BrokerErrorView> {
    match r {
        Ok(out) => Ok(out@),
        Err(e) => Err(e@),
    }
}

/// Per-connection state machine.
#[derive(Debug)]
pub struct ConnectionState {
    client_phase: Phase,
    auth_accumulator: Vec<u8>,
    msg_buf: Vec<u8>,
}

impl View for ConnectionState {
    type V = StreamView;

    closed spec fn view(&self) -> StreamView {
        StreamView {
            authed: self.client_phase == Phase::Messages,
            auth: self.auth_accumulator@,
            pending: self.msg_buf@,
        }
    }
}

impl Default for ConnectionState {
    fn default() -> (s: ConnectionState)
        ensures
            s@ == fresh_stream(),
    {
        ConnectionState::new()
    }
}

impl ConnectionState {
    /// Upper bound on the length of a handshake.
    pub const MAX_AUTH_BUFFER: usize = sasl::MAX_AUTH_BUFFER;

    /// The state of a new connection.
    pub fn new() -> (s: ConnectionState)
        ensures
            s@ == fresh_stream(),
            s@.wf(),
    {
        let s = ConnectionState {
            client_phase: Phase::Auth,
            auth_accumulator: Vec::new(),
            msg_buf: Vec::new(),
        };
        assert(s@ =~= fresh_stream());
        s
    }

    /// Moves the complete messages that lead the held-back bytes to the output,
    /// behind `lead`.
    fn drain_messages(&mut self, lead: Output) -> (r: Result<Output, BrokerError>)
        ensures
            ({
                let d = drained(old(self)@.pending, lead@.forward.len());
                &&& final(self)@ == (StreamView {
                    pending: old(self)@.pending.skip(d.taken as int),
                    ..old(self)@
                })
                &&& match d.error {
                    Some(e) => r matches Err(got) && got@ == BrokerErrorView::Message(e),
                    None => r matches Ok(got) && got@ == (OutputView {
                        forward: lead@.forward + old(self)@.pending.take(d.taken as int),
                        messages: lead@.messages + d.messages,
                    }),
                }
                &&& reads_written(d, old(self)@.pending, lead@.forward.len())
            }),
    {
        let mut out = lead;
        let ghost all = self.msg_buf@;
        let ghost before = out@;
        let ghost mut seen: Seq<ObservedView> = seq![];
        let ghost mut taken: nat = 0;
        proof {
            assert(all.skip(0) =~= all);
            assert(before.forward + all.take(0) =~= before.forward);
            assert(before.messages + seen =~= before.messages);
            reveal(reads_written);
        }
        loop
            invariant
                self.client_phase == old(self).client_phase,
                self.auth_accumulator@ == old(self).auth_accumulator@,
                all == old(self).msg_buf@,
                before == lead@,
                taken <= all.len(),
                self.msg_buf@ == all.skip(taken as int),
                out@.forward == before.forward + all.take(taken as int),
                out@.messages == before.messages + seen,
                ({
                    let rest = drained(all.skip(taken as int), before.forward.len() + taken);
                    drained(all, before.forward.len()) == (Drained {
                        messages: seen + rest.messages,
                        taken: taken + rest.taken,
                        error: rest.error,
                    })
                }),
                reads_written(
                    Drained { messages: seen, taken, error: None },
                    all,
                    before.forward.len(),
                ),
            ensures
                drained(all, before.forward.len()) == (Drained { messages: seen, taken, error: None }),
            decreases self.msg_buf@.len(),
        {
            proof {
                frame_size_bounds(self.msg_buf@);
            }
            let total: usize = match message::bytes_needed(&self.msg_buf) {
                Ok(Some(n)) => n,
                Ok(None) => {
                    proof {
                        assert(seen + Seq::<ObservedView>::empty() =~= seen);
                    }
                    break;
                },
                Err(e) => {
                    proof {
                        assert forall|f: FrameView|
                            decodable(f) && frame_bytes(f).len()
                                <= MAX_MESSAGE_SIZE implies !(#[trigger] frame_bytes(
                            f,
                        )).is_prefix_of(all.skip(taken as int)) by {
                            if frame_bytes(f).is_prefix_of(all.skip(taken as int)) {
                                frame_size_of_written(f, all.skip(taken as int));
                            }
                        }
                        reads_written_error(seen, taken, all, before.forward.len(), e@);
                        assert(seen + Seq::<ObservedView>::empty() =~= seen);
                    }
                    return Err(BrokerError::Message(e));
                },
            };
            if self.msg_buf.len() < total {
                proof {
                    assert(seen + Seq::<ObservedView>::empty() =~= seen);
                }
                break;
            }
            let first = vstd::slice::slice_subrange(self.msg_buf.as_slice(), 0, total);
            proof {
                assert(self.msg_buf@.take(total as int) =~= first@);
            }
            let header = match message::parse_header(first) {
                Ok(header) => header,
                Err(e) => {
                    proof {
                        assert forall|f: FrameView|
                            decodable(f) && frame_bytes(f).len()
                                <= MAX_MESSAGE_SIZE implies !(#[trigger] frame_bytes(
                            f,
                        )).is_prefix_of(all.skip(taken as int)) by {
                            if frame_bytes(f).is_prefix_of(all.skip(taken as int)) {
                                frame_size_of_written(f, all.skip(taken as int));
                                assert(frame_bytes(f) =~= first@);
                                assert(frame_bytes(f).is_prefix_of(first@));
                            }
                        }
                        reads_written_error(seen, taken, all, before.forward.len(), e@);
                        assert(seen + Seq::<ObservedView>::empty() =~= seen);
                    }
                    return Err(BrokerError::Message(e));
                },
            };
            let offset: usize = out.forward.len();
            append(&mut out.forward, first);
            let ghost buf = self.msg_buf@;
            let ghost next = ObservedView {
                header: header@,
                offset: offset as nat,
                length: total as nat,
            };
            let ghost rest = drained(buf.skip(total as int), offset as nat + total as nat);
            proof {
                assert(seen.push(next) + rest.messages =~= seen + (seq![next] + rest.messages));
                assert(all.take(taken as int) + buf.take(total as int) =~= all.take(
                    (taken + total) as int,
                ));
                assert(buf.skip(total as int) =~= all.skip((taken + total) as int));
            }
            let ghost listed = out.messages@;
            out.messages.push(ObservedMessage { header, offset, length: total });
            let tail = self.msg_buf.split_off(total);
            self.msg_buf = tail;
            proof {
                assert(self.msg_buf@ =~= buf.skip(total as int));
                assert(observed_views(out.messages@) =~= observed_views(listed).push(next));
                assert(before.messages + seen.push(next) =~= (before.messages + seen).push(next));
                assert(before.forward + all.take((taken + total) as int) =~= before.forward
                    + all.take(taken as int) + buf.take(total as int));
                assert(bytes_of(next, all, before.forward.len()) =~= first@);
                assert forall|f: FrameView|
                    decodable(f) && #[trigger] frame_bytes(f) == bytes_of(
                        next,
                        all,
                        before.forward.len(),
                    ) implies next.header == header_of(as_written(f)) by {
                    assert(frame_bytes(f).is_prefix_of(first@));
                }
                reads_written_push(seen, taken, all, before.forward.len(), next);
                seen = seen.push(next);
                taken = taken + total as nat;
            }
        }
        Ok(out)
    }
}

/// What is left once the first message is taken.
proof fn reads_written_rest(buf: Seq<u8>, at: nat, n: nat)
    requires
        frame_size(buf) == Ok::<Option<nat>, ErrorView>(Some(n)),
        n <= buf.len(),
        parsed_header(buf.take(n as int)) is Ok,
        reads_written(drained(buf, at), buf, at),
    ensures
        reads_written(drained(buf.skip(n as int), at + n), buf.skip(n as int), at + n),
{
    let d = drained(buf, at);
    let rest = buf.skip(n as int);
    let e = drained(rest, at + n);
    drained_offsets(rest, at + n);
    assert forall|i: int| 0 <= i < e.messages.len() implies d.messages[i + 1]
        == #[trigger] e.messages[i] by {}
    reveal(reads_written);
    assert forall|i: int, f: FrameView|
        0 <= i < e.messages.len() && decodable(f) && #[trigger] frame_bytes(f) == bytes_of(
            #[trigger] e.messages[i],
            rest,
            at + n,
        ) implies e.messages[i].header == header_of(as_written(f)) by {
        let m = e.messages[i];
        assert(d.messages[i + 1] == m);
        assert(bytes_of(m, rest, at + n) =~= bytes_of(m, buf, at));
    }
    if d.error is Some {
        assert(rest.skip(e.taken as int) =~= buf.skip(d.taken as int));
    }
}

/// Messages stand where they were taken.
proof fn drained_offsets(buf: Seq<u8>, at: nat)
    ensures
        drained(buf, at).taken <= buf.len(),
        forall|i: int|
            0 <= i < drained(buf, at).messages.len() ==> at <= (#[trigger] drained(
                buf,
                at,
            ).messages[i]).offset && drained(buf, at).messages[i].offset + drained(
                buf,
                at,
            ).messages[i].length <= at + drained(buf, at).taken,
    decreases buf.len(),
{
    frame_size_bounds(buf);
    if let Ok(Some(n)) = frame_size(buf) {
        if buf.len() >= n && parsed_header(buf.take(n as int)) is Ok {
            drained_offsets(buf.skip(n as int), at + n);
            let d = drained(buf, at);
            let e = drained(buf.skip(n as int), at + n);
            assert forall|i: int| 0 <= i < d.messages.len() implies at <= (
            #[trigger] d.messages[i]).offset && d.messages[i].offset + d.messages[i].length <= at
                + d.taken by {
                if i > 0 {
                    assert(d.messages[i] == e.messages[i - 1]);
                }
            }
        }
    }
}

/// Frames in a row are observed one by one.
proof fn frames_observed(frames: Seq<FrameView>, at: nat)
    requires
        sendable(frames),
        reads_written(drained(stream_bytes(frames), at), stream_bytes(frames), at),
    ensures
        observes(drained(stream_bytes(frames), at), frames),
    decreases frames.len(),
{
    let buf = stream_bytes(frames);
    let d = drained(buf, at);
    if frames.len() > 0 {
        let f = frames[0];
        let rest = frames.skip(1);
        let n = frame_bytes(f).len();
        assert(buf.take(n as int) =~= frame_bytes(f));
        assert(buf.skip(n as int) =~= stream_bytes(rest));
        assert(frame_bytes(f).is_prefix_of(buf));
        frame_size_of_written(f, buf);
        if parsed_header(buf.take(n as int)) is Err {
            reveal(reads_written);
            assert(buf.skip(0) =~= buf);
            assert(false);
        }
        let e = drained(stream_bytes(rest), at + n);
        assert(d.messages.len() == 1 + e.messages.len());
        assert(d.messages[0].header == header_of(as_written(f))) by {
            reveal(reads_written);
            let m = d.messages[0];
            assert(bytes_of(m, buf, at) =~= frame_bytes(f));
        }
        reads_written_rest(buf, at, n);
        assert forall|i: int| 0 <= i < rest.len() implies decodable(#[trigger] rest[i])
            && frame_bytes(rest[i]).len() <= MAX_MESSAGE_SIZE by {
            assert(rest[i] == frames[i + 1]);
        }
        frames_observed(rest, at + n);
        assert forall|i: int| 0 <= i < d.messages.len() implies (
        #[trigger] d.messages[i]).header == header_of(as_written(frames[i])) by {
            if i > 0 {
                assert(d.messages[i] == e.messages[i - 1]);
                assert(frames[i] == rest[i - 1]);
            }
        }
    }
}

impl ConnectionState {
    /// Takes bytes from the client's socket; gives the bytes for the bus and
    /// the messages that became complete.
    ///
    /// Frames that were written one behind the other are observed one by one,
    /// each with its header, and nothing of them is held back.
    pub fn client_feed(&mut self, chunk: &[u8]) -> (out: Result<Output, BrokerError>)
        ensures
            (final(self)@, fed_view(out)) == fed(old(self)@, chunk@),
            old(self)@.wf() ==> final(self)@.wf(),
            forall|frames: Seq<FrameView>|
                sendable(frames) && message_bytes(old(self)@, chunk@) == Some(
                    #[trigger] stream_bytes(frames),
                ) ==> out is Ok && final(self)@.pending.len() == 0 && out->Ok_0@.messages.len()
                    == frames.len() && are_headers_of(out->Ok_0@.messages, frames),
    {
        let mut out = Output::default();
        let mut consumed: usize = 0;
        if self.client_phase == Phase::Auth {
            let original_auth_len: usize = self.auth_accumulator.len();
            append(&mut self.auth_accumulator, chunk);
            proof {
                begin_end_stable(self.auth_accumulator@, seq![]);
            }
            match sasl::find_begin_end(&self.auth_accumulator) {
                Err(e) => {
                    return Err(BrokerError::Sasl(e));
                },
                Ok(None) => {
                    // The bus answers each line, so nothing is held back.
                    append(&mut out.forward, chunk);
                    assert(out.forward@ =~= chunk@);
                    return Ok(out);
                },
                Ok(Some(end)) => {
                    let auth_bytes_in_chunk: usize = if end > original_auth_len {
                        end - original_auth_len
                    } else {
                        0
                    };
                    append(
                        &mut out.forward,
                        vstd::slice::slice_subrange(chunk, 0, auth_bytes_in_chunk),
                    );
                    assert(out.forward@ =~= chunk@.take(auth_bytes_in_chunk as int));
                    consumed = auth_bytes_in_chunk;
                    self.auth_accumulator = Vec::new();
                    self.client_phase = Phase::Messages;
                },
            }
        }
        append(&mut self.msg_buf, vstd::slice::slice_subrange(chunk, consumed, chunk.len()));
        proof {
            assert(chunk@.subrange(consumed as int, chunk@.len() as int) =~= chunk@.skip(
                consumed as int,
            ));
            assert(chunk@.skip(0) =~= chunk@);
            let d = drained(self.msg_buf@, out.forward@.len());
            assert(Seq::<ObservedView>::empty() + d.messages =~= d.messages);
        }
        let ghost pending = self.msg_buf@;
        let ghost at = out.forward@.len();
        let r = self.drain_messages(out);
        proof {
            assert(message_bytes(old(self)@, chunk@) == Some(pending));
            assert forall|frames: Seq<FrameView>|
                sendable(frames) && pending == #[trigger] stream_bytes(frames) implies observes(
                drained(pending, at),
                frames,
            ) by {
                frames_observed(frames, at);
            }
        }
        r
    }

    /// Takes bytes from the bus's socket: they are for the client as they are.
    pub fn bus_feed(&mut self, chunk: &[u8]) -> (out: Result<Output, BrokerError>)
        ensures
            final(self)@ == old(self)@,
            fed_view(out) == Ok::<OutputView, BrokerErrorView>(
                OutputView { forward: chunk@, messages: seq![] },
            ),
    {
        let forward = copy_range(chunk, 0, chunk.len());
        let out = Output { forward, messages: Vec::new() };
        assert(out@ =~= (OutputView { forward: chunk@, messages: seq![] }));
        Ok(out)
    }

    /// Whether the handshake is over.
    pub fn is_authed(&self) -> (authed: bool)
        ensures
            authed == self@.authed,
    {
        self.client_phase == Phase::Messages
    }
}

} // verus!
