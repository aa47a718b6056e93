//! The SASL handshake in front of the message stream.
//!
//! A client opens with a NUL byte and a few lines of text. The line `BEGIN`
//! ends the handshake; messages follow.

use vstd::prelude::*;

use crate::text::push_text;

verus! {

/// The longest handshake that is accepted (16 KiB).
pub const MAX_AUTH_BUFFER: usize = 16 * 1024;

/// Why bytes are not a handshake.
#[derive(Debug, Clone, Copy, PartialEq, Eq, Structural)]
pub enum SaslError {
    /// The first byte is not NUL.
    MissingNulPrefix,
    /// The handshake does not end within [`MAX_AUTH_BUFFER`] bytes.
    HandshakeTooLong,
}

/// The message that describes an error.
pub open spec fn sasl_error_text(e: SaslError) -> Seq<char> {
    match e {
        SaslError::MissingNulPrefix => "handshake does not start with a NUL byte"@,
        SaslError::HandshakeTooLong => "handshake exceeds maximum"@,
    }
}

impl SaslError {
    /// The message that describes this error.
    pub fn message(&self) -> (text: String)
        ensures
            text@ == sasl_error_text(*self),
    {
        let mut text = String::new();
        match self {
            SaslError::MissingNulPrefix => push_text(
                &mut text,
                "handshake does not start with a NUL byte",
            ),
            SaslError::HandshakeTooLong => push_text(&mut text, "handshake exceeds maximum"),
        }
        assert(text@ =~= sasl_error_text(*self));
        text
    }
}

/// The bytes of `BEGIN\r\n`.
pub open spec fn begin_line() -> Seq<u8> {
    seq![0x42u8, 0x45, 0x47, 0x49, 0x4e, 0x0d, 0x0a]
}

/// Whether `BEGIN\r\n` stands at `at`.
pub open spec fn begins_at(buf: Seq<u8>, at: int) -> bool {
    0 <= at && at + 7 <= buf.len() && buf.subrange(at, at + 7) == begin_line()
}

/// Where the first `BEGIN\r\n` from `from` on ends.
pub open spec fn first_begin_end(buf: Seq<u8>, from: nat) -> Option<nat>
    decreases buf.len() - from,
{
    if from + 7 > buf.len() {
        None
    } else if begins_at(buf, from as int) {
        Some(from + 7)
    } else {
        first_begin_end(buf, from + 1)
    }
}

/// Where the handshake that starts `buf` ends, once it does.
pub open spec fn begin_end(buf: Seq<u8>) -> Result<Option<nat>, SaslError> {
    if buf.len() == 0 {
        Ok(None)
    } else if buf[0] != 0 {
        Err(SaslError::MissingNulPrefix)
    } else {
        match first_begin_end(buf, 0) {
            Some(end) => if end <= MAX_AUTH_BUFFER {
                Ok(Some(end))
            } else {
                Err(SaslError::HandshakeTooLong)
            },
            None => if buf.len() <= MAX_AUTH_BUFFER {
                Ok(None)
            } else {
                Err(SaslError::HandshakeTooLong)
            },
        }
    }
}

/// Finds the end of the handshake that starts `buf`: `Ok(None)` where more
/// bytes are needed.
pub fn find_begin_end(buf: &[u8]) -> (end: Result<Option<usize>, SaslError>)
    ensures
        match end {
            Ok(Some(n)) => begin_end(buf@) == Ok::<Option<nat>, SaslError>(Some(n as nat)),
            Ok(None) => begin_end(buf@) == Ok::<Option<nat>, SaslError>(None),
            Err(e) => begin_end(buf@) == Err::<Option<nat>, SaslError>(e),
        },
{
    if buf.len() == 0 {
        return Ok(None);
    }
    if buf[0] != 0 {
        return Err(SaslError::MissingNulPrefix);
    }
    let mut at: usize = 0;
    while at < buf.len() && buf.len() - at >= 7
        invariant
            at <= buf@.len(),
            buf@.len() > 0,
            buf@[0] == 0,
            first_begin_end(buf@, 0) == first_begin_end(buf@, at as nat),
        decreases buf@.len() - at,
    {
        if buf[at] == 0x42 && buf[at + 1] == 0x45 && buf[at + 2] == 0x47 && buf[at + 3] == 0x49
            && buf[at + 4] == 0x4e && buf[at + 5] == 0x0d && buf[at + 6] == 0x0a {
            assert(buf@.subrange(at as int, at + 7) =~= begin_line());
            let end: usize = at + 7;
            return if end <= MAX_AUTH_BUFFER {
                Ok(Some(end))
            } else {
                Err(SaslError::HandshakeTooLong)
            };
        }
        assert(!begins_at(buf@, at as int)) by {
            if begins_at(buf@, at as int) {
                let line = buf@.subrange(at as int, at + 7);
                assert(line[0] == 0x42 && line[1] == 0x45 && line[2] == 0x47 && line[3] == 0x49
                    && line[4] == 0x4e && line[5] == 0x0d && line[6] == 0x0a);
            }
        }
        at = at + 1;
    }
    if buf.len() <= MAX_AUTH_BUFFER {
        Ok(None)
    } else {
        Err(SaslError::HandshakeTooLong)
    }
}

/// The first `BEGIN\r\n` of a stream stays the first when more bytes arrive; a
/// new one ends in the new bytes.
proof fn first_begin_stable(buf: Seq<u8>, more: Seq<u8>, from: nat)
    ensures
        match first_begin_end(buf, from) {
            Some(end) => first_begin_end(buf + more, from) == Some(end) && from + 7 <= end
                <= buf.len(),
            None => first_begin_end(buf + more, from) matches Some(end) ==> end > buf.len()
                && end <= buf.len() + more.len(),
        },
    decreases buf.len() + more.len() - from,
{
    let all = buf + more;
    if from + 7 <= buf.len() {
        assert(all.subrange(from as int, from as int + 7) =~= buf.subrange(from as int, from as int + 7));
        if !begins_at(buf, from as int) {
            first_begin_stable(buf, more, from + 1);
        }
    } else if from + 7 <= all.len() {
        if !begins_at(all, from as int) {
            first_begin_stable(buf, more, from + 1);
        }
    }
}

/// What has been found of a handshake does not depend on how its bytes arrive:
/// its end stays where it is, a refusal stays, and an end that is found later
/// lies in the later bytes.
pub proof fn begin_end_stable(buf: Seq<u8>, more: Seq<u8>)
    ensures
        begin_end(buf) is Err ==> begin_end(buf + more) == begin_end(buf),
        begin_end(buf) matches Ok(Some(end)) ==> 7 < end <= buf.len() && begin_end(buf + more)
            == begin_end(buf),
        begin_end(buf) == Ok::<Option<nat>, SaslError>(None) ==> (begin_end(buf + more) matches Ok(
            Some(end),
        ) ==> buf.len() < end <= buf.len() + more.len()),
{
    if buf.len() > 0 {
        assert((buf + more)[0] == buf[0]);
        first_begin_stable(buf, more, 0);
        if first_begin_end(buf, 0) == Some(7nat) {
            assert(begins_at(buf, 0)) by {
                if !begins_at(buf, 0) {
                    first_begin_stable(buf, seq![], 1);
                }
            }
            assert(buf.subrange(0, 7)[0] == buf[0]);
        }
    } else {
        assert(buf + more =~= more);
        if more.len() > 0 {
            first_begin_stable(more, seq![], 0);
        }
    }
}

} // verus!
