//! What holds of the client's stream as a whole.

use vstd::prelude::*;

use super::state::{
    drained, fed, fed_messages, BrokerErrorView, Drained, ObservedView, OutputView, StreamView,
};
use crate::dbus::frame::{
    frame_size, frame_size_bounds, frame_size_local, ErrorView, MAX_MESSAGE_SIZE,
};
use crate::dbus::message::parsed_header;
use crate::dbus::sasl::{begin_end, begin_end_stable, SaslError, MAX_AUTH_BUFFER};

verus! {

/// Messages that stand `by` bytes further on.
pub open spec fn shifted(messages: Seq<ObservedView>, by: nat) -> Seq<ObservedView> {
    messages.map_values(|m: ObservedView| ObservedView { offset: m.offset + by, ..m })
}

/// Two outputs in a row.
pub open spec fn joined(a: OutputView, b: OutputView) -> OutputView {
    OutputView {
        forward: a.forward + b.forward,
        messages: a.messages + shifted(b.messages, a.forward.len()),
    }
}

/// Messages and their lengths do not depend on where they stand.
proof fn drained_shifted(buf: Seq<u8>, at: nat, by: nat)
    ensures
        drained(buf, at + by) == (Drained {
            messages: shifted(drained(buf, at).messages, by),
            ..drained(buf, at)
        }),
    decreases buf.len(),
{
    frame_size_bounds(buf);
    let d = drained(buf, at);
    let e = drained(buf, at + by);
    if let Ok(Some(n)) = frame_size(buf) {
        if buf.len() >= n && parsed_header(buf.take(n as int)) is Ok {
            drained_shifted(buf.skip(n as int), at + n, by);
            assert(at + by + n == at + n + by);
        }
    }
    assert(e.messages =~= shifted(d.messages, by));
}

/// The messages that lead `buf` stay the same when more bytes arrive; what
/// follows them is read as if it stood alone.
proof fn drained_append(buf: Seq<u8>, more: Seq<u8>, at: nat)
    ensures
        drained(buf, at).taken <= buf.len(),
        drained(buf, at).error is Some ==> drained(buf + more, at) == drained(buf, at),
        drained(buf, at).error is None ==> ({
            let d = drained(buf, at);
            let e = drained(buf.skip(d.taken as int) + more, at + d.taken);
            drained(buf + more, at) == (Drained {
                messages: d.messages + e.messages,
                taken: d.taken + e.taken,
                error: e.error,
            })
        }),
    decreases buf.len(),
{
    frame_size_bounds(buf);
    let all = buf + more;
    let d = drained(buf, at);
    if buf.len() >= 16 {
        frame_size_local(buf, more);
    }
    if let Ok(Some(n)) = frame_size(buf) {
        if buf.len() >= n {
            assert(all.take(n as int) =~= buf.take(n as int));
            if parsed_header(buf.take(n as int)) is Ok {
                assert(all.skip(n as int) =~= buf.skip(n as int) + more);
                drained_append(buf.skip(n as int), more, at + n);
                let rest = drained(buf.skip(n as int), at + n);
                if rest.error is None {
                    assert(buf.skip(n as int).skip(rest.taken as int) =~= buf.skip(
                        d.taken as int,
                    ));
                    let e = drained(buf.skip(d.taken as int) + more, at + d.taken);
                    let first = ObservedView {
                        header: parsed_header(buf.take(n as int))->Ok_0,
                        offset: at,
                        length: n,
                    };
                    assert(seq![first] + rest.messages + e.messages =~= seq![first] + (
                    rest.messages + e.messages));
                }
            }
        }
    }
    if d.error is None && d.taken == 0 {
        assert(buf.skip(0) + more =~= all);
        let e = drained(all, at);
        assert(d.messages =~= seq![]);
        assert(d.messages + e.messages =~= e.messages);
    }
}

/// Whether a stream can go on: it holds only the part that is being read, and
/// the handshake in it has neither ended nor been refused.
pub open spec fn is_open(s: StreamView) -> bool {
    s.wf() && (!s.authed ==> begin_end(s.auth) == Ok::<Option<nat>, SaslError>(None))
}

/// A new connection can go on, and so can one whose last chunk was accepted.
pub proof fn stays_open(s: StreamView, chunk: Seq<u8>)
    requires
        is_open(s),
        fed(s, chunk).1 is Ok,
    ensures
        is_open(fed(s, chunk).0),
{
}

/// A stream is read the same however it is cut into chunks: two chunks in a row
/// give what their concatenation gives, and leave the same state. Where one of
/// them is refused, so is the concatenation, for the same reason.
pub proof fn chunks_concatenate(s: StreamView, a: Seq<u8>, b: Seq<u8>)
    requires
        is_open(s),
    ensures
        match fed(s, a).1 {
            Err(e) => fed(s, a + b).1 == Err::<OutputView, BrokerErrorView>(e),
            Ok(first) => match fed(fed(s, a).0, b).1 {
                Err(e) => fed(s, a + b).1 == Err::<OutputView, BrokerErrorView>(e),
                Ok(second) => fed(s, a + b) == (
                    fed(fed(s, a).0, b).0,
                    Ok::<OutputView, BrokerErrorView>(joined(first, second)),
                ),
            },
        },
{
    if s.authed {
        messages_concatenate(s, seq![], a, b);
    } else {
        let auth = s.auth + a;
        begin_end_stable(s.auth, a);
        begin_end_stable(auth, b);
        assert(s.auth + (a + b) =~= auth + b);
        match begin_end(auth) {
            Err(_) => {},
            Ok(None) => {
                if let Ok(Some(end)) = begin_end(auth + b) {
                    let split = end - s.auth.len();
                    let later = end - auth.len();
                    assert((a + b).take(split) =~= a + b.take(later));
                    assert((a + b).skip(split) =~= b.skip(later));
                    let pending = s.pending + b.skip(later);
                    drained_shifted(pending, b.take(later).len(), a.len());
                    let d = drained(pending, b.take(later).len());
                    if d.error is None {
                        let first = OutputView { forward: a, messages: seq![] };
                        let second = OutputView {
                            forward: b.take(later) + pending.take(d.taken as int),
                            messages: d.messages,
                        };
                        assert(a + b.take(later) + pending.take(d.taken as int) =~= joined(
                            first,
                            second,
                        ).forward);
                        assert(joined(first, second).messages =~= shifted(d.messages, a.len()));
                    }
                } else if let Ok(None) = begin_end(auth + b) {
                    let first = OutputView { forward: a, messages: seq![] };
                    let second = OutputView { forward: b, messages: seq![] };
                    assert(joined(first, second) =~= (OutputView {
                        forward: a + b,
                        messages: seq![],
                    }));
                }
            },
            Ok(Some(end)) => {
                let split = end - s.auth.len();
                let open = StreamView { authed: true, auth: seq![], ..s };
                assert((a + b).take(split) =~= a.take(split));
                assert((a + b).skip(split) =~= a.skip(split) + b);
                messages_concatenate(open, a.take(split), a.skip(split), b);
            },
        }
    }
}

/// What comes of chunks in a row, up to the first that is refused.
pub open spec fn fed_all(s: StreamView, chunks: Seq<Seq<u8>>) -> (
    StreamView,
    Result<OutputView, BrokerErrorView>,
)
    decreases chunks.len(),
{
    if chunks.len() == 0 {
        (s, Ok(OutputView { forward: seq![], messages: seq![] }))
    } else {
        let (before, so_far) = fed_all(s, chunks.drop_last());
        match so_far {
            Err(e) => (before, Err(e)),
            Ok(first) => {
                let (after, r) = fed(before, chunks.last());
                match r {
                    Err(e) => (after, Err(e)),
                    Ok(second) => (after, Ok(joined(first, second))),
                }
            },
        }
    }
}

/// Chunks one behind the other.
pub open spec fn concatenated(chunks: Seq<Seq<u8>>) -> Seq<u8>
    decreases chunks.len(),
{
    if chunks.len() == 0 {
        seq![]
    } else {
        concatenated(chunks.drop_last()) + chunks.last()
    }
}

/// However a stream is cut into chunks, it gives the same output and leaves the
/// same state as in one piece, and is refused for the same reason.
pub proof fn any_cut_is_the_same(s: StreamView, chunks: Seq<Seq<u8>>)
    requires
        is_open(s),
        chunks.len() > 0,
    ensures
        fed_all(s, chunks).1 == fed(s, concatenated(chunks)).1,
        fed_all(s, chunks).1 is Ok ==> fed_all(s, chunks).0 == fed(s, concatenated(chunks)).0,
    decreases chunks.len(),
{
    let front = chunks.drop_last();
    let last = chunks.last();
    if front.len() == 0 {
        reveal_with_fuel(fed_all, 2);
        reveal_with_fuel(concatenated, 2);
        assert(concatenated(chunks) =~= last);
        if let Ok(out) = fed(s, last).1 {
            let none = OutputView { forward: seq![], messages: seq![] };
            assert(joined(none, out).forward =~= out.forward);
            assert(joined(none, out).messages =~= out.messages);
        }
    } else {
        any_cut_is_the_same(s, front);
        chunks_concatenate(s, concatenated(front), last);
    }
}

/// Chunks of a stream whose handshake is over, the first of them behind `lead`.
#[verifier::rlimit(40)]
proof fn messages_concatenate(s: StreamView, lead: Seq<u8>, a: Seq<u8>, b: Seq<u8>)
    requires
        s.authed,
    ensures
        match fed_messages(s, lead, a).1 {
            Err(e) => fed_messages(s, lead, a + b).1 == Err::<OutputView, BrokerErrorView>(e),
            Ok(first) => match fed_messages(fed_messages(s, lead, a).0, seq![], b).1 {
                Err(e) => fed_messages(s, lead, a + b).1 == Err::<OutputView, BrokerErrorView>(e),
                Ok(second) => fed_messages(s, lead, a + b) == (
                    fed_messages(fed_messages(s, lead, a).0, seq![], b).0,
                    Ok::<OutputView, BrokerErrorView>(joined(first, second)),
                ),
            },
        },
{
    let buf = s.pending + a;
    let all = s.pending + (a + b);
    assert(all =~= buf + b);
    drained_append(buf, b, lead.len());
    let d = drained(buf, lead.len());
    let s1 = StreamView { pending: buf.skip(d.taken as int), ..s };
    let rest = s1.pending + b;
    let e = drained(rest, 0);
    if d.error is None {
        let by = lead.len() + d.taken;
        drained_append(rest, seq![], 0);
        drained_shifted(rest, 0, by);
        assert(drained(rest, by) == drained(rest, 0 + by));
        let whole = drained(all, lead.len());
        assert(whole.error == e.error);
        assert(whole.taken == d.taken + e.taken);
        assert(whole.messages == d.messages + shifted(e.messages, by));
        let first = OutputView { forward: lead + buf.take(d.taken as int), messages: d.messages };
        let second = OutputView {
            forward: Seq::<u8>::empty() + rest.take(e.taken as int),
            messages: e.messages,
        };
        assert(all.skip(whole.taken as int) =~= rest.skip(e.taken as int));
        assert(lead + all.take(whole.taken as int) =~= joined(first, second).forward);
    }
}

/// No byte is lost, added or moved: what was held back and the chunk are what
/// is forwarded and what is held back then.
pub proof fn nothing_lost(s: StreamView, chunk: Seq<u8>)
    requires
        is_open(s),
    ensures
        fed(s, chunk).1 matches Ok(out) ==> s.pending + chunk == out.forward + fed(
            s,
            chunk,
        ).0.pending,
{
    if s.authed {
        let pending = s.pending + chunk;
        drained_append(pending, seq![], 0);
        let d = drained(pending, 0);
        assert(Seq::<u8>::empty() + pending.take(d.taken as int) + pending.skip(d.taken as int)
            =~= pending);
    } else {
        begin_end_stable(s.auth, chunk);
        if let Ok(Some(end)) = begin_end(s.auth + chunk) {
            let split = end - s.auth.len();
            let pending = s.pending + chunk.skip(split);
            drained_append(pending, seq![], chunk.take(split).len());
            let d = drained(pending, chunk.take(split).len());
            assert(chunk.take(split) + pending.take(d.taken as int) + pending.skip(d.taken as int)
                =~= s.pending + chunk);
        } else if fed(s, chunk).1 is Ok {
            assert(s.pending + chunk =~= chunk + s.pending);
        }
    }
}

/// What is held back never grows past the largest handshake and the largest
/// message.
pub proof fn held_back_is_bounded(s: StreamView, chunk: Seq<u8>)
    requires
        is_open(s),
        fed(s, chunk).1 is Ok,
    ensures
        fed(s, chunk).0.auth.len() <= MAX_AUTH_BUFFER,
        fed(s, chunk).0.pending.len() < MAX_MESSAGE_SIZE,
{
    if s.authed {
        drained_rest(s.pending + chunk, 0);
    } else if let Ok(Some(end)) = begin_end(s.auth + chunk) {
        let split = if end > s.auth.len() {
            end - s.auth.len()
        } else {
            0
        };
        drained_rest(s.pending + chunk.skip(split), chunk.take(split).len());
    }
}

/// What follows the complete messages is shorter than the largest message.
proof fn drained_rest(buf: Seq<u8>, at: nat)
    ensures
        drained(buf, at).error is None ==> drained(buf, at).taken <= buf.len() < drained(
            buf,
            at,
        ).taken + MAX_MESSAGE_SIZE,
    decreases buf.len(),
{
    frame_size_bounds(buf);
    if let Ok(Some(n)) = frame_size(buf) {
        if buf.len() >= n && parsed_header(buf.take(n as int)) is Ok {
            drained_rest(buf.skip(n as int), at + n);
        }
    }
}

/// Whether `messages` stand one behind the other from `from` to the end of
/// `forward`, each with the header that is read from its bytes.
pub open spec fn tiled(forward: Seq<u8>, messages: Seq<ObservedView>, from: nat) -> bool
    decreases messages.len(),
{
    if messages.len() == 0 {
        from == forward.len()
    } else {
        let m = messages[0];
        &&& m.offset == from
        &&& m.length > 0
        &&& from + m.length <= forward.len()
        &&& parsed_header(forward.subrange(from as int, (from + m.length) as int)) == Ok::<
            _,
            ErrorView,
        >(m.header)
        &&& tiled(forward, messages.skip(1), from + m.length)
    }
}

/// Messages that are taken from a buffer tile it.
proof fn drained_tiles(forward: Seq<u8>, buf: Seq<u8>, at: nat)
    requires
        at <= forward.len(),
        drained(buf, at).error is None,
        forward.len() == at + drained(buf, at).taken,
        drained(buf, at).taken <= buf.len(),
        forward.skip(at as int) == buf.take(drained(buf, at).taken as int),
    ensures
        tiled(forward, drained(buf, at).messages, at),
    decreases buf.len(),
{
    frame_size_bounds(buf);
    let d = drained(buf, at);
    if let Ok(Some(n)) = frame_size(buf) {
        if buf.len() >= n && parsed_header(buf.take(n as int)) is Ok {
            let rest = drained(buf.skip(n as int), at + n);
            assert(forward.subrange(at as int, (at + n) as int) =~= buf.take(n as int)) by {
                assert(forward.skip(at as int).take(n as int) =~= forward.subrange(
                    at as int,
                    (at + n) as int,
                ));
                assert(buf.take(d.taken as int).take(n as int) =~= buf.take(n as int));
            }
            assert(forward.skip((at + n) as int) =~= forward.skip(at as int).skip(n as int));
            assert(buf.take(d.taken as int).skip(n as int) =~= buf.skip(n as int).take(
                rest.taken as int,
            ));
            drained_tiles(forward, buf.skip(n as int), at + n);
            assert(d.messages.skip(1) =~= rest.messages);
        }
    }
}

/// The messages of an output stand one behind the other at the end of the
/// forwarded bytes, each with the header that is read from its bytes. What
/// stands in front of them belongs to the handshake.
pub proof fn messages_tile(s: StreamView, chunk: Seq<u8>)
    requires
        is_open(s),
    ensures
        fed(s, chunk).1 matches Ok(out) ==> exists|from: nat|
            from <= out.forward.len() && (s.authed ==> from == 0) && #[trigger] tiled(
                out.forward,
                out.messages,
                from,
            ),
{
    if let Ok(out) = fed(s, chunk).1 {
        if s.authed {
            let pending = s.pending + chunk;
            let d = drained(pending, 0);
            drained_append(pending, seq![], 0);
            assert(out.forward.skip(0) =~= pending.take(d.taken as int));
            drained_tiles(out.forward, pending, 0);
            assert(tiled(out.forward, out.messages, 0));
        } else {
            begin_end_stable(s.auth, chunk);
            if let Ok(Some(end)) = begin_end(s.auth + chunk) {
                let split = end - s.auth.len();
                let lead = chunk.take(split);
                let pending = s.pending + chunk.skip(split);
                let d = drained(pending, lead.len());
                drained_append(pending, seq![], lead.len());
                assert(out.forward.skip(lead.len() as int) =~= pending.take(d.taken as int));
                drained_tiles(out.forward, pending, lead.len());
                assert(tiled(out.forward, out.messages, lead.len()));
            } else {
                assert(tiled(out.forward, out.messages, out.forward.len()));
            }
        }
    }
}

} // verus!
