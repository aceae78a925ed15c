//! The data model: requests a client may send and responses the server
//! returns. A message carries at most one payload; a decoded message with no
//! recognized payload is represented by `None`, and the server answers it
//! with no response.

use vstd::prelude::*;

verus! {

/// A request or response carrying a text to be echoed back unchanged.
pub struct EchoMessage {
    pub content: String,
}

/// A request to add two 32-bit integers.
pub struct AddRequest {
    pub a: i32,
    pub b: i32,
}

/// The response to an [`AddRequest`]: the wrapped 32-bit sum.
pub struct AddResponse {
    pub result: i32,
}

/// The payload of a client message: exactly one recognized variant.
pub enum ClientPayload {
    EchoMessage(EchoMessage),
    AddRequest(AddRequest),
}

/// A decoded client message; `None` stands for an absent or unrecognized
/// payload.
pub struct ClientMessage {
    pub message: Option<ClientPayload>,
}

/// The payload of a server message: exactly one recognized variant.
pub enum ServerPayload {
    EchoMessage(EchoMessage),
    AddResponse(AddResponse),
}

/// A server message; `None` stands for an absent or unrecognized payload.
pub struct ServerMessage {
    pub message: Option<ServerPayload>,
}

/// The mathematical value of a client message: empty, an echo request over a
/// character sequence, or an addition request over two 32-bit integers.
pub enum ClientMsgV {
    Empty,
    Echo { content: Seq<char> },
    Add { a: i32, b: i32 },
}

/// The mathematical value of a server message: empty, an echo response over a
/// character sequence, or an addition result.
pub enum ServerMsgV {
    Empty,
    Echo { content: Seq<char> },
    AddResult { result: i32 },
}

impl View for ClientMessage {
    type V = ClientMsgV;

    open spec fn view(&self) -> ClientMsgV {
        match self.message {
            None => ClientMsgV::Empty,
            Some(ClientPayload::EchoMessage(e)) => ClientMsgV::Echo { content: e.content@ },
            Some(ClientPayload::AddRequest(r)) => ClientMsgV::Add { a: r.a, b: r.b },
        }
    }
}

impl View for ServerMessage {
    type V = ServerMsgV;

    open spec fn view(&self) -> ServerMsgV {
        match self.message {
            None => ServerMsgV::Empty,
            Some(ServerPayload::EchoMessage(e)) => ServerMsgV::Echo { content: e.content@ },
            Some(ServerPayload::AddResponse(r)) => ServerMsgV::AddResult { result: r.result },
        }
    }
}

} // verus!
