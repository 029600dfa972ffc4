//! The application messages and their mathematical views.
//!
//! Text content is carried as UTF-8 bytes; the codec refuses bytes that are
//! not valid UTF-8, so a decoded `EchoMessage` always holds text.

use vstd::prelude::*;

verus! {

/// A message to be sent back verbatim. `content` holds UTF-8 text.
#[derive(Clone, Debug)]
pub struct EchoMessage {
    pub content: Vec<u8>,
}

/// A request to add two 32-bit signed integers.
#[derive(Clone, Copy, Debug)]
pub struct AddRequest {
    pub a: i32,
    pub b: i32,
}

/// The sum computed for an `AddRequest`.
#[derive(Clone, Copy, Debug)]
pub struct AddResponse {
    pub result: i32,
}

/// Envelope for one client-to-server message: exactly one variant per
/// decoded instance, the discriminant being the variant itself.
#[derive(Clone, Debug)]
pub enum ClientMessage {
    EchoMessage(EchoMessage),
    AddRequest(AddRequest),
}

/// Envelope for one server-to-client message.
#[derive(Clone, Debug)]
pub enum ServerMessage {
    EchoMessage(EchoMessage),
    AddResponse(AddResponse),
}

/// Mathematical view of a client envelope.
pub enum ClientMsg {
    Echo { content: Seq<u8> },
    Add { a: i32, b: i32 },
}

/// Mathematical view of a server envelope.
pub enum ServerMsg {
    Echo { content: Seq<u8> },
    AddResp { result: i32 },
}

impl View for EchoMessage {
    type V = Seq<u8>;

    open spec fn view(&self) -> Seq<u8> {
        self.content@
    }
}

impl View for ClientMessage {
    type V = ClientMsg;

    open spec fn view(&self) -> ClientMsg {
        match self {
            ClientMessage::EchoMessage(m) => ClientMsg::Echo { content: m.content@ },
            ClientMessage::AddRequest(r) => ClientMsg::Add { a: r.a, b: r.b },
        }
    }
}

impl View for ServerMessage {
    type V = ServerMsg;

    open spec fn view(&self) -> ServerMsg {
        match self {
            ServerMessage::EchoMessage(m) => ServerMsg::Echo { content: m.content@ },
            ServerMessage::AddResponse(r) => ServerMsg::AddResp { result: r.result },
        }
    }
}

} // verus!
