//! The connection handler's logic: classify one read, compute the reply.
//!
//! One read delivers at most one encoded client envelope. The payload is
//! classified by the decode trial order — the echo kind before the add
//! kind — and the reply is the matching server envelope: an echo message
//! is sent back with its content unchanged, an add request draws the sum
//! of its two summands. The sum is 32-bit two's-complement addition and
//! wraps around on overflow. A payload that decodes as neither kind draws
//! no reply at all, and the connection stays open.
//!
//! The surrounding binary performs the read and the write; every decision
//! in between is made here.

use vstd::prelude::*;
use crate::codec::{
    utf8_ok, client_msg_bytes, parse_server_msg, lemma_client_msg_round_trip,
    lemma_server_msg_round_trip,
    parse_client_msg, server_msg_bytes, decode_client_message, encode_server_message,
};
use crate::message::{AddResponse, ClientMessage, ClientMsg, ServerMessage, ServerMsg};

verus! {

/// How long the handler pauses after a read timeout before it retries,
/// in milliseconds.
pub const READ_RETRY_MILLIS: u64 = 100;

/// The read timeout configured on every accepted connection, in seconds.
pub const READ_TIMEOUT_SECS: u64 = 10;

/// The size of the receive buffer: one read delivers at most this many
/// bytes, and larger messages are out of scope.
pub const RECV_BUFFER_BYTES: usize = 512;

/// The sum of `a` and `b` in 32-bit two's-complement arithmetic: the exact
/// sum when it is representable, otherwise wrapped around modulo 2^32.
pub open spec fn wrap_add32(a: i32, b: i32) -> i32 {
    if a + b > i32::MAX {
        (a + b - 0x1_0000_0000) as i32
    } else if a + b < i32::MIN {
        (a + b + 0x1_0000_0000) as i32
    } else {
        (a + b) as i32
    }
}

/// Computes `wrap_add32` at runtime.
pub fn add_wrapping(a: i32, b: i32) -> (r: i32)
    ensures
        r == wrap_add32(a, b),
{
    let s: i64 = a as i64 + b as i64;
    if s > i32::MAX as i64 {
        (s - 0x1_0000_0000) as i32
    } else if s < i32::MIN as i64 {
        (s + 0x1_0000_0000) as i32
    } else {
        s as i32
    }
}

/// The server's whole per-payload behaviour: the bytes written back for
/// one payload read, or nothing when the payload decodes as no known kind.
pub open spec fn response_bytes(req: Seq<u8>) -> Option<Seq<u8>> {
    match parse_client_msg(req) {
        Some(ClientMsg::Echo { content }) => Some(
            server_msg_bytes(ServerMsg::Echo { content }),
        ),
        Some(ClientMsg::Add { a, b }) => Some(
            server_msg_bytes(ServerMsg::AddResp { result: wrap_add32(a, b) }),
        ),
        None => None,
    }
}

/// Classifies one payload and computes the reply, exactly as
/// `response_bytes` describes: an echoed envelope for an echo message, a
/// sum envelope for an add request, nothing for anything else.
pub fn handle_payload(req: &Vec<u8>) -> (r: Option<Vec<u8>>)
    ensures
        r matches Some(v) ==> response_bytes(req@) == Some(v@),
        r is None ==> response_bytes(req@) is None,
{
    match decode_client_message(req) {
        None => None,
        Some(ClientMessage::EchoMessage(e)) => {
            let resp = ServerMessage::EchoMessage(e);
            Some(encode_server_message(&resp))
        },
        Some(ClientMessage::AddRequest(r)) => {
            let sum = add_wrapping(r.a, r.b);
            let resp = ServerMessage::AddResponse(AddResponse { result: sum });
            Some(encode_server_message(&resp))
        },
    }
}

/// What one read on the connection produced.
pub enum ReadEvent {
    /// The read returned zero bytes: the peer closed the connection.
    Closed,
    /// The read returned these bytes.
    Data(Vec<u8>),
    /// No data arrived within the read timeout.
    TimedOut,
    /// The read failed with an unrecoverable error.
    Failed,
}

/// What the handler does next with its connection.
pub enum HandlerAction {
    /// Log the disconnection and stop serving this connection; not an
    /// error.
    Disconnect,
    /// Write these bytes back, then read again.
    Reply(Vec<u8>),
    /// Log a warning, send nothing, and keep the connection open.
    Ignore,
    /// Pause for `READ_RETRY_MILLIS` and read again.
    Pause,
    /// Log the error and abandon this connection.
    Abort,
}

/// Decides one handler step. A clean close is terminal and not an error; a
/// recognised payload draws exactly the reply `response_bytes` gives; an
/// unrecognised one draws no reply and leaves the connection open; a
/// timeout is retried after a pause; any other failure abandons the
/// connection.
pub fn handle_read_event(ev: ReadEvent) -> (act: HandlerAction)
    ensures
        ev is Closed ==> act is Disconnect,
        ev matches ReadEvent::Data(buf) ==> match response_bytes(buf@) {
            Some(resp) => act matches HandlerAction::Reply(out) && out@ == resp,
            None => act is Ignore,
        },
        ev is TimedOut ==> act is Pause,
        ev is Failed ==> act is Abort,
{
    match ev {
        ReadEvent::Closed => HandlerAction::Disconnect,
        ReadEvent::Data(buf) => match handle_payload(&buf) {
            Some(out) => HandlerAction::Reply(out),
            None => HandlerAction::Ignore,
        },
        ReadEvent::TimedOut => HandlerAction::Pause,
        ReadEvent::Failed => HandlerAction::Abort,
    }
}

/// Decides whether the owning loop keeps serving this connection: only
/// while the shared running flag holds and the last step neither closed
/// nor abandoned the connection.
pub fn connection_continues(running: bool, last: &HandlerAction) -> (r: bool)
    ensures
        r == (running && !(last is Disconnect) && !(last is Abort)),
{
    running && !(matches!(last, HandlerAction::Disconnect)) && !(matches!(
        last,
        HandlerAction::Abort,
    ))
}

/// Round-trip law for echo: for every echo message whose content is text
/// (or empty), sending its envelope draws exactly one response, and that
/// response decodes as an echo message with the same content.
pub proof fn lemma_echo_service_round_trip(content: Seq<u8>)
    requires
        content.len() <= 0xffff_ffff,
    ensures
        content.len() == 0 || utf8_ok(content) ==> {
            let resp = response_bytes(client_msg_bytes(ClientMsg::Echo { content }));
            &&& resp is Some
            &&& parse_server_msg(resp.unwrap()) == Some(ServerMsg::Echo { content })
        },
{
    if content.len() == 0 || utf8_ok(content) {
        lemma_client_msg_round_trip(ClientMsg::Echo { content });
        lemma_server_msg_round_trip(ServerMsg::Echo { content });
    }
}

/// Round-trip law for addition: for every pair of summands whose exact sum
/// is representable in 32 bits, sending their add request draws exactly
/// one response, and it decodes as an add response carrying that sum.
pub proof fn lemma_add_service_round_trip(a: i32, b: i32)
    requires
        i32::MIN <= a + b <= i32::MAX,
    ensures
        ({
            let resp = response_bytes(client_msg_bytes(ClientMsg::Add { a, b }));
            &&& resp is Some
            &&& parse_server_msg(resp.unwrap()) == Some(
                ServerMsg::AddResp { result: (a + b) as i32 },
            )
        }),
{
    lemma_client_msg_round_trip(ClientMsg::Add { a, b });
    lemma_server_msg_round_trip(ServerMsg::AddResp { result: wrap_add32(a, b) });
}

/// A payload that decodes as no known message kind draws no response;
/// `handle_read_event` turns this into `Ignore`, which keeps the
/// connection open.
pub proof fn lemma_unknown_payload_silent(req: Seq<u8>)
    ensures
        parse_client_msg(req) is None ==> response_bytes(req) is None,
{
}

} // verus!
