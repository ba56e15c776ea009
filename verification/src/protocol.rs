//! The agent/server protocol: the messages, their length-prefixed framing on
//! the wire, and how an agent reads the server's replies.
//!
//! A frame is the body's length as four big-endian bytes, then the body.

use vstd::prelude::*;
use crate::error::{MonitorError, MonitorResult};
use crate::model::{AgentReport, SystemInfo};

verus! {

/// A message between an agent and the server.
#[derive(Debug)]
pub enum Message {
    /// Sent once by an agent when it connects.
    Register(SystemInfo),
    /// Sent periodically by an agent.
    Report(AgentReport),
    /// The server's acknowledgement.
    Ack,
    /// The server asks the agent to stop monitoring.
    Stop,
}

impl Clone for Message {
    fn clone(&self) -> (r: Self)
        ensures
            r == *self,
    {
        match self {
            Message::Register(info) => Message::Register(info.clone()),
            Message::Report(report) => Message::Report(report.clone()),
            Message::Ack => Message::Ack,
            Message::Stop => Message::Stop,
        }
    }
}

/// The four big-endian bytes of `n`.
pub open spec fn be_bytes(n: u32) -> Seq<u8> {
    seq![(n >> 24u32) as u8, (n >> 16u32) as u8, (n >> 8u32) as u8, n as u8]
}

/// The number that four big-endian bytes stand for.
pub open spec fn be_value(b: Seq<u8>) -> nat {
    b[0] as nat * 16777216 + b[1] as nat * 65536 + b[2] as nat * 256 + b[3] as nat
}

/// The frame of `body`: its length, truncated to 32 bits as the prefix
/// field holds, then the body itself.
pub open spec fn frame(body: Seq<u8>) -> Seq<u8> {
    be_bytes(body.len() as u32) + body
}

proof fn lemma_be_roundtrip(n: u32)
    ensures
        be_value(be_bytes(n)) == n,
{
    let b0 = (n >> 24u32) as u8;
    let b1 = (n >> 16u32) as u8;
    let b2 = (n >> 8u32) as u8;
    let b3 = n as u8;
    assert(b0 as u32 * 16777216u32 + b1 as u32 * 65536u32 + b2 as u32 * 256u32 + b3 as u32 == n)
        by (bit_vector)
        requires
            b0 == (n >> 24u32) as u8,
            b1 == (n >> 16u32) as u8,
            b2 == (n >> 8u32) as u8,
            b3 == n as u8,
    ;
}

/// Frames `body` for the wire.
pub fn encode_frame(body: &[u8]) -> (out: Vec<u8>)
    ensures
        out@ == frame(body@),
{
    let len: u32 = body.len() as u32;
    let mut out: Vec<u8> = Vec::with_capacity(4);
    out.push((len >> 24u32) as u8);
    out.push((len >> 16u32) as u8);
    out.push((len >> 8u32) as u8);
    out.push(len as u8);
    let mut i: usize = 0;
    while i < body.len()
        invariant
            i <= body@.len(),
            out@ == be_bytes(len) + body@.subrange(0, i as int),
            len == body@.len() as u32,
        decreases body@.len() - i,
    {
        out.push(body[i]);
        i = i + 1;
        assert(out@ =~= be_bytes(len) + body@.subrange(0, i as int));
    }
    assert(body@.subrange(0, body@.len() as int) =~= body@);
    out
}

/// The body length that a frame's four-byte header announces.
pub fn frame_body_len(header: &[u8]) -> (n: usize)
    requires
        header@.len() >= 4,
    ensures
        n == be_value(header@),
{
    let b0 = header[0];
    let b1 = header[1];
    let b2 = header[2];
    let b3 = header[3];
    let v: u32 = (b0 as u32) << 24u32 | (b1 as u32) << 16u32 | (b2 as u32) << 8u32 | b3 as u32;
    assert(v == b0 as u32 * 16777216u32 + b1 as u32 * 65536u32 + b2 as u32 * 256u32 + b3 as u32)
        by (bit_vector)
        requires
            v == (b0 as u32) << 24u32 | (b1 as u32) << 16u32 | (b2 as u32) << 8u32 | b3 as u32,
    ;
    v as usize
}

/// The length prefix is big-endian: the first byte of a frame holds the
/// highest eight bits of the body's length, the fourth the lowest.
pub proof fn lemma_frame_header_is_big_endian(body: Seq<u8>)
    requires
        body.len() <= u32::MAX,
    ensures
        frame(body)[0] == body.len() / 16777216,
        frame(body)[1] == body.len() / 65536 % 256,
        frame(body)[2] == body.len() / 256 % 256,
        frame(body)[3] == body.len() % 256,
{
    let n = body.len() as u32;
    assert(((n >> 24u32) as u8) as u32 == n / 16777216u32) by (bit_vector);
    assert(((n >> 16u32) as u8) as u32 == n / 65536u32 % 256u32) by (bit_vector);
    assert(((n >> 8u32) as u8) as u32 == n / 256u32 % 256u32) by (bit_vector);
    assert((n as u8) as u32 == n % 256u32) by (bit_vector);
}

/// What a reader gives back of a frame that a writer sent, even with more
/// bytes behind it on the same connection: the header announces the body's
/// length, the next that many bytes are the body, and whatever follows is
/// left untouched for the next frame, for every body whose length fits the
/// 32-bit prefix. So frames sent back to back are read back one by one.
pub proof fn lemma_frame_roundtrip(body: Seq<u8>, rest: Seq<u8>)
    requires
        body.len() <= u32::MAX,
    ensures
        frame(body).len() == 4 + body.len() as int,
        be_value((frame(body) + rest).subrange(0, 4)) == body.len(),
        (frame(body) + rest).subrange(4, 4 + body.len() as int) == body,
        (frame(body) + rest).subrange(4 + body.len() as int, (frame(body) + rest).len() as int) == rest,
{
    let n = body.len() as u32;
    assert(n == body.len());
    lemma_be_roundtrip(n);
    let all = frame(body) + rest;
    assert(all.subrange(0, 4) =~= be_bytes(n));
    assert(all.subrange(4, 4 + body.len() as int) =~= body);
    assert(all.subrange(4 + body.len() as int, all.len() as int) =~= rest);
}

/// The text of a message as std's derived `Debug` formatting writes it
/// (for example `Stop`, or `Register(SystemInfo { agent_id: "a", .. })`).
pub uninterp spec fn debug_rendering(m: Message) -> Seq<char>;

/// Renders a message with std's `format!("{:?}")` over its derived `Debug`.
/// The contract claims only that the text is a function of the message,
/// named `debug_rendering`; what that text is, is not stated.
#[verifier::external_body]
fn debug_text(m: &Message) -> (s: String)
    ensures
        s@ == debug_rendering(*m),
{
    format!("{:?}", m)
}

/// The protocol error whose text is `prefix` followed by `rendering`.
pub fn protocol_error(prefix: &str, rendering: &str) -> (e: MonitorError)
    ensures
        e matches MonitorError::ProtocolError(s) && s@ == prefix@ + rendering@,
{
    let mut s = String::from_str(prefix);
    s.append(rendering);
    MonitorError::ProtocolError(s)
}

/// `ProtocolError(prefix + the reply's Debug rendering)`.
fn unexpected(prefix: &str, reply: &Message) -> (e: MonitorError)
    ensures
        e matches MonitorError::ProtocolError(s) && s@ == prefix@ + debug_rendering(*reply),
{
    let d = debug_text(reply);
    protocol_error(prefix, d.as_str())
}

/// How an agent reads the server's reply to its registration: `Ack` accepts
/// it, anything else is a protocol error.
pub fn registration_outcome(reply: &Message) -> (r: MonitorResult<()>)
    ensures
        reply is Ack ==> r is Ok,
        !(reply is Ack) ==> (r matches Err(MonitorError::ProtocolError(s))
            && s@ == "Unexpected response during registration: "@ + debug_rendering(*reply)),
{
    match reply {
        Message::Ack => Ok(()),
        _ => Err(unexpected("Unexpected response during registration: ", reply)),
    }
}

/// How an agent reads the server's reply to a report: `Ack` means go on
/// (`false`), `Stop` means stop monitoring (`true`), anything else is a
/// protocol error.
pub fn report_outcome(reply: &Message) -> (r: MonitorResult<bool>)
    ensures
        reply is Ack ==> r == Ok::<bool, MonitorError>(false),
        reply is Stop ==> r == Ok::<bool, MonitorError>(true),
        !(reply is Ack) && !(reply is Stop) ==> (r matches Err(MonitorError::ProtocolError(s))
            && s@ == "Unexpected response while sending report: "@ + debug_rendering(*reply)),
{
    match reply {
        Message::Ack => Ok(false),
        Message::Stop => Ok(true),
        _ => Err(unexpected("Unexpected response while sending report: ", reply)),
    }
}

} // verus!
