//! The per-connection handler: what the server does with each payload that
//! one read of a connection delivers, and what its read loop does with each
//! outcome of a read. Every exchange is stateless: nothing carries over from
//! one payload to the next, within a connection or across connections.

use vstd::prelude::*;

use crate::codec::{
    client_msg_fits, decode_client_message, encode_server_message, lemma_client_round_trip,
    lemma_server_round_trip, spec_decode_client, spec_decode_server, spec_encode_client,
    spec_encode_server,
};
use crate::message::{
    AddResponse, ClientMessage, ClientMsgV, ClientPayload, ServerMessage, ServerMsgV,
    ServerPayload,
};

verus! {

/// The response a decoded request calls for: an echo request is answered with
/// its own text, an addition request with the wrapped 32-bit sum, and a
/// message without a recognized payload with no response at all.
pub open spec fn spec_response(m: ClientMsgV) -> Option<ServerMsgV> {
    match m {
        ClientMsgV::Empty => None,
        ClientMsgV::Echo { content } => Some(ServerMsgV::Echo { content }),
        ClientMsgV::Add { a, b } => Some(ServerMsgV::AddResult { result: a.wrapping_add(b) }),
    }
}

/// Computes the response to a decoded request.
pub fn handle_message(m: ClientMessage) -> (r: Option<ServerMessage>)
    ensures
        match r {
            Some(resp) => spec_response(m@) == Some(resp@),
            None => spec_response(m@) is None,
        },
{
    match m.message {
        None => None,
        Some(ClientPayload::EchoMessage(e)) => Some(
            ServerMessage { message: Some(ServerPayload::EchoMessage(e)) },
        ),
        Some(ClientPayload::AddRequest(q)) => Some(
            ServerMessage {
                message: Some(
                    ServerPayload::AddResponse(AddResponse { result: q.a.wrapping_add(q.b) }),
                ),
            },
        ),
    }
}

/// The bytes the server writes back for one payload read off a connection:
/// nothing when the payload does not decode or carries no recognized
/// payload, else the encoded response.
pub open spec fn spec_reply(bytes: Seq<u8>) -> Option<Seq<u8>> {
    match spec_decode_client(bytes) {
        None => None,
        Some(m) => match spec_response(m) {
            None => None,
            Some(resp) => Some(spec_encode_server(resp)),
        },
    }
}

/// Decodes one payload, dispatches on its variant, and encodes the response.
pub fn reply_to(data: &[u8]) -> (r: Option<Vec<u8>>)
    ensures
        match r {
            Some(out) => spec_reply(data@) == Some(out@),
            None => spec_reply(data@) is None,
        },
{
    match decode_client_message(data) {
        None => None,
        Some(m) => match handle_message(m) {
            None => None,
            Some(resp) => Some(encode_server_message(&resp)),
        },
    }
}

/// One observation of a connection's byte stream.
pub enum ReadEvent {
    /// Zero bytes were read: the peer closed the connection.
    Closed,
    /// One payload arrived.
    Payload(Vec<u8>),
    /// No data is ready yet.
    NotReady,
    /// Reading failed.
    Failed,
}

/// What the connection handler does next.
pub enum HandlerAction {
    /// Stop the loop and report success: the peer is gone.
    Finish,
    /// Write these bytes back, then read again.
    Reply(Vec<u8>),
    /// Write nothing and read again on the same connection: the payload was
    /// malformed or carried no recognized payload.
    KeepReading,
    /// Sleep briefly, then read again.
    Backoff,
    /// Stop the loop and report the read error.
    Fail,
}

/// Decides one round of the read loop. Only a closed connection or a read
/// error ends the loop; a payload, however malformed, never does.
pub fn handler_step(evt: ReadEvent) -> (a: HandlerAction)
    ensures
        match evt {
            ReadEvent::Closed => a is Finish,
            ReadEvent::Payload(d) => match spec_reply(d@) {
                Some(out) => a matches HandlerAction::Reply(v) && v@ == out,
                None => a is KeepReading,
            },
            ReadEvent::NotReady => a is Backoff,
            ReadEvent::Failed => a is Fail,
        },
{
    match evt {
        ReadEvent::Closed => HandlerAction::Finish,
        ReadEvent::Payload(d) => match reply_to(d.as_slice()) {
            Some(out) => HandlerAction::Reply(out),
            None => HandlerAction::KeepReading,
        },
        ReadEvent::NotReady => HandlerAction::Backoff,
        ReadEvent::Failed => HandlerAction::Fail,
    }
}

/// Law: echoing is the identity. For every text, the empty one included, the
/// reply to an encoded echo request is the encoded echo response carrying
/// exactly that text, and decoding the reply gives exactly that text back.
pub proof fn lemma_echo_identity(content: Seq<char>)
    requires
        client_msg_fits(ClientMsgV::Echo { content }),
    ensures
        spec_reply(spec_encode_client(ClientMsgV::Echo { content })) == Some(
            spec_encode_server(ServerMsgV::Echo { content }),
        ),
        spec_decode_server(spec_encode_server(ServerMsgV::Echo { content })) == Some(
            ServerMsgV::Echo { content },
        ),
{
    lemma_client_round_trip(ClientMsgV::Echo { content });
    lemma_server_round_trip(ServerMsgV::Echo { content });
}

/// Law: addition is correct. For all 32-bit operands, the reply to an encoded
/// addition request is the encoded result carrying their sum under 32-bit
/// wraparound, and decoding the reply gives exactly that sum back.
pub proof fn lemma_addition_correct(a: i32, b: i32)
    ensures
        spec_reply(spec_encode_client(ClientMsgV::Add { a, b })) == Some(
            spec_encode_server(ServerMsgV::AddResult { result: a.wrapping_add(b) }),
        ),
        spec_decode_server(spec_encode_server(ServerMsgV::AddResult { result: a.wrapping_add(b) }))
            == Some(ServerMsgV::AddResult { result: a.wrapping_add(b) }),
{
    lemma_client_round_trip(ClientMsgV::Add { a, b });
    lemma_server_round_trip(ServerMsgV::AddResult { result: a.wrapping_add(b) });
}

/// Law: a payload that does not decode draws no response, and the handler
/// keeps reading: the connection stays open for later, well-formed payloads.
pub proof fn lemma_malformed_payload_ignored(bytes: Seq<u8>)
    requires
        spec_decode_client(bytes) is None,
    ensures
        spec_reply(bytes) is None,
{
}

/// The replies one connection's loop produces over a sequence of payloads:
/// one per payload, in order.
pub open spec fn spec_replies(payloads: Seq<Seq<u8>>) -> Seq<Option<Seq<u8>>> {
    payloads.map(|i: int, p: Seq<u8>| spec_reply(p))
}

/// Law: exchanges are independent. The reply at each position of a sequence
/// of payloads is a function of that payload alone: no earlier traffic, no
/// position in the sequence, and no other connection's payloads enter into
/// it. A reconnecting client's first exchange is therefore the same as any
/// first-time exchange with the same payload.
pub proof fn lemma_exchanges_independent(payloads: Seq<Seq<u8>>, i: int)
    requires
        0 <= i < payloads.len(),
    ensures
        spec_replies(payloads)[i] == spec_reply(payloads[i]),
{
}

/// Replies to a sequence of payloads, as one connection's loop does over its
/// lifetime: each exchange stands alone and the replies come back in order.
pub fn reply_to_all(payloads: &Vec<Vec<u8>>) -> (r: Vec<Option<Vec<u8>>>)
    ensures
        r@.len() == payloads@.len(),
        forall|i: int|
            0 <= i < r@.len() ==> (match #[trigger] r@[i] {
                Some(v) => spec_reply(payloads@[i]@) == Some(v@),
                None => spec_reply(payloads@[i]@) is None,
            }),
{
    let mut out: Vec<Option<Vec<u8>>> = Vec::new();
    let mut k: usize = 0;
    while k < payloads.len()
        invariant
            k <= payloads@.len(),
            out@.len() == k,
            forall|i: int|
                0 <= i < k ==> (match #[trigger] out@[i] {
                    Some(v) => spec_reply(payloads@[i]@) == Some(v@),
                    None => spec_reply(payloads@[i]@) is None,
                }),
        decreases payloads@.len() - k,
    {
        out.push(reply_to(payloads[k].as_slice()));
        k = k + 1;
    }
    out
}

} // verus!

