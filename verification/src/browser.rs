//! Native messaging boundary for an opt-in browser extension: length-prefixed
//! frames, the requests the extension sends, and the replies.
use vstd::prelude::*;

use crate::collectors::{browser_event, BrowserEvent};
use crate::events::LocalEvent;

verus! {

/// The largest payload a frame may announce (1 MiB).
pub const MAX_MESSAGE_LEN: usize = 1_048_576;

#[derive(Debug, Clone, Copy, PartialEq, Eq, Structural)]
pub enum FrameError {
    /// The frame announces more than `MAX_MESSAGE_LEN` bytes.
    TooLarge,
    /// The input ends inside the payload.
    Truncated,
}

/// The little-endian `u32` in four bytes.
pub open spec fn le_u32(b0: u8, b1: u8, b2: u8, b3: u8) -> nat {
    b0 as nat + 256 * (b1 as nat) + 65536 * (b2 as nat) + 16777216 * (b3 as nat)
}

/// The little-endian bytes of `n < 2^32`.
pub open spec fn le_bytes(n: nat) -> Seq<u8> {
    seq![
        (n % 256) as u8,
        ((n / 256) % 256) as u8,
        ((n / 65536) % 256) as u8,
        ((n / 16777216) % 256) as u8,
    ]
}

/// A frame: the payload length modulo 2^32 as four little-endian bytes, then
/// the payload.
pub open spec fn frame(payload: Seq<u8>) -> Seq<u8> {
    le_bytes(payload.len() % 4294967296) + payload
}

pub proof fn lemma_le_roundtrip(n: nat)
    requires
        n < 4294967296,
    ensures
        le_u32(le_bytes(n)[0], le_bytes(n)[1], le_bytes(n)[2], le_bytes(n)[3]) == n,
{
    let b = le_bytes(n);
    assert(n == (n % 256) + 256 * ((n / 256) % 256) + 65536 * ((n / 65536) % 256) + 16777216 * (
    (n / 16777216) % 256)) by (nonlinear_arith)
        requires
            n < 4294967296,
    ;
}

/// The payload length that a four-byte header announces.
pub fn decode_length(header: [u8; 4]) -> (r: Result<usize, FrameError>)
    ensures
        match r {
            Ok(n) => n == le_u32(header[0], header[1], header[2], header[3]) && n
                <= MAX_MESSAGE_LEN,
            Err(e) => e == FrameError::TooLarge && le_u32(header[0], header[1], header[2], header[3])
                > MAX_MESSAGE_LEN,
        },
{
    let length: u64 = header[0] as u64 + 256 * (header[1] as u64) + 65536 * (header[2] as u64)
        + 16777216 * (header[3] as u64);
    if length > 1_048_576 {
        return Err(FrameError::TooLarge);
    }
    Ok(length as usize)
}

/// Reads one frame from the front of `reader` and advances it past what was read.
/// Fewer than four bytes is the end of input (`Ok(None)`, all of them consumed);
/// a frame announcing more than 1 MiB is refused after its header; a payload
/// cut short consumes the rest.
pub fn read_message(reader: &mut &[u8]) -> (r: Result<Option<Vec<u8>>, FrameError>)
    ensures
        ({
            let input = old(reader)@;
            if input.len() < 4 {
                r == Ok::<Option<Vec<u8>>, FrameError>(None) && final(reader)@.len() == 0
            } else {
                let n = le_u32(input[0], input[1], input[2], input[3]);
                if n > MAX_MESSAGE_LEN {
                    r == Err::<Option<Vec<u8>>, FrameError>(FrameError::TooLarge)
                        && final(reader)@ == input.skip(4)
                } else if input.len() < 4 + n {
                    r == Err::<Option<Vec<u8>>, FrameError>(FrameError::Truncated)
                        && final(reader)@.len() == 0
                } else {
                    &&& r matches Ok(Some(payload))
                    &&& payload@ == input.subrange(4, 4 + n as int)
                    &&& final(reader)@ == input.skip(4 + n as int)
                }
            }
        }),
{
    let input: &[u8] = *reader;
    let total = input.len();
    if total < 4 {
        *reader = vstd::slice::slice_subrange(input, total, total);
        return Ok(None);
    }
    let header = [input[0], input[1], input[2], input[3]];
    let rest = vstd::slice::slice_subrange(input, 4, total);
    assert(rest@ =~= input@.skip(4));
    let length = match decode_length(header) {
        Ok(n) => n,
        Err(e) => {
            *reader = rest;
            return Err(e);
        },
    };
    if rest.len() < length {
        *reader = vstd::slice::slice_subrange(rest, rest.len(), rest.len());
        return Err(FrameError::Truncated);
    }
    let payload = vstd::slice::slice_to_vec(vstd::slice::slice_subrange(rest, 0, length));
    *reader = vstd::slice::slice_subrange(rest, length, rest.len());
    assert(payload@ =~= input@.subrange(4, 4 + length));
    assert(final(reader)@ =~= input@.skip(4 + length));
    Ok(Some(payload))
}

/// Appends the frame of `payload` to `writer`.
pub fn write_message(writer: &mut Vec<u8>, payload: &[u8])
    ensures
        final(writer)@ == old(writer)@ + frame(payload@),
{
    let n: u64 = (payload.len() as u64) % 4294967296;
    writer.push((n % 256) as u8);
    writer.push(((n / 256) % 256) as u8);
    writer.push(((n / 65536) % 256) as u8);
    writer.push(((n / 16777216) % 256) as u8);
    let mut i: usize = 0;
    let ghost base = writer@;
    while i < payload.len()
        invariant
            i <= payload@.len(),
            writer@ == base + payload@.take(i as int),
        decreases payload@.len() - i,
    {
        writer.push(payload[i]);
        assert(payload@.take(i + 1) =~= payload@.take(i as int).push(payload@[i as int]));
        assert(writer@ =~= base + payload@.take(i + 1));
        i = i + 1;
    }
    assert(payload@.take(payload@.len() as int) =~= payload@);
    assert(final(writer)@ =~= old(writer)@ + frame(payload@));
}

/// A message from the browser extension.
#[derive(Debug, Clone, PartialEq, Eq)]
pub enum NativeRequest {
    TabChanged { title: String, url: String },
    DownloadCompleted { path: String },
    MediaChanged { playing: bool },
}

/// The local event that a request records.
pub fn request_event(request: NativeRequest) -> (e: LocalEvent)
    ensures
        e.kind == crate::events::EventKind::Browser,
        match request {
            NativeRequest::TabChanged { title, url } => e.summary@ == "Browser tab changed"@
                && e.detail@ == title@ + " ("@ + url@ + ")"@,
            NativeRequest::DownloadCompleted { path } => e.summary@
                == "Browser download completed"@ && e.detail@ == path@,
            NativeRequest::MediaChanged { playing } => e.summary@ == "Browser media changed"@
                && e.detail@ == (if playing {
                "playing"@
            } else {
                "paused"@
            }),
        },
{
    match request {
        NativeRequest::TabChanged { title, url } => browser_event(
            BrowserEvent::TabChanged { title, url },
        ),
        NativeRequest::DownloadCompleted { path } => browser_event(
            BrowserEvent::DownloadCompleted(path),
        ),
        NativeRequest::MediaChanged { playing } => browser_event(
            BrowserEvent::MediaChanged { playing },
        ),
    }
}

/// What became of one incoming message.
#[derive(Debug, Clone, Copy, PartialEq, Eq, Structural)]
pub enum RequestOutcome {
    /// The payload was not a request.
    Invalid,
    /// The request's event was written to the activity log.
    Recorded,
    /// The request was valid but its event could not be written.
    NotRecorded,
}

/// The reply sent back for each message.
#[derive(Debug, Clone, PartialEq, Eq)]
pub struct NativeResponse {
    pub accepted: bool,
    pub message: &'static str,
}

pub fn native_response(outcome: RequestOutcome) -> (r: NativeResponse)
    ensures
        r.accepted == (outcome == RequestOutcome::Recorded),
        r.message@ == match outcome {
            RequestOutcome::Invalid => "invalid native message"@,
            RequestOutcome::Recorded => "recorded"@,
            RequestOutcome::NotRecorded => "could not record event"@,
        },
{
    match outcome {
        RequestOutcome::Invalid => NativeResponse {
            accepted: false,
            message: "invalid native message",
        },
        RequestOutcome::Recorded => NativeResponse { accepted: true, message: "recorded" },
        RequestOutcome::NotRecorded => NativeResponse {
            accepted: false,
            message: "could not record event",
        },
    }
}

// ---------------------------------------------------------------------------
// Laws
// ---------------------------------------------------------------------------
/// Reading a written frame gives back the payload and leaves what followed it:
/// the header announces the payload's length, the payload follows it.
pub proof fn law_frame_roundtrip(payload: Seq<u8>, rest: Seq<u8>)
    requires
        payload.len() <= MAX_MESSAGE_LEN,
    ensures
        ({
            let input = frame(payload) + rest;
            let n = le_u32(input[0], input[1], input[2], input[3]);
            &&& input.len() >= 4
            &&& n == payload.len()
            &&& input.len() >= 4 + n
            &&& input.subrange(4, 4 + n as int) == payload
            &&& input.skip(4 + n as int) == rest
        }),
{
    let input = frame(payload) + rest;
    let len = payload.len();
    assert(len % 4294967296 == len);
    lemma_le_roundtrip(len);
    assert(input[0] == le_bytes(len)[0]);
    assert(input[1] == le_bytes(len)[1]);
    assert(input[2] == le_bytes(len)[2]);
    assert(input[3] == le_bytes(len)[3]);
    assert(input.subrange(4, 4 + len as int) =~= payload);
    assert(input.skip(4 + len as int) =~= rest);
}

} // verus!
