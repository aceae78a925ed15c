//! Message-level behavior of the server core: each test drives the verified
//! pipeline the way one connection's traffic would.

use message_server::handler::{handler_step, reply_to, reply_to_all, HandlerAction, ReadEvent};
use message_server::lifecycle::{accept_step, AcceptAction, AcceptEvent, Lifecycle};
use message_server::codec::{decode_server_message, encode_client_message};
use message_server::message::{
    AddRequest, ClientMessage, ClientPayload, EchoMessage, ServerMessage, ServerPayload,
};

fn echo_request(content: &str) -> Vec<u8> {
    let m = ClientMessage {
        message: Some(ClientPayload::EchoMessage(EchoMessage { content: content.to_string() })),
    };
    encode_client_message(&m)
}

fn add_request(a: i32, b: i32) -> Vec<u8> {
    let m = ClientMessage { message: Some(ClientPayload::AddRequest(AddRequest { a, b })) };
    encode_client_message(&m)
}

fn response_of(reply: Vec<u8>) -> ServerMessage {
    decode_server_message(reply.as_slice()).expect("reply must decode")
}

#[test]
fn test_client_connection() {
    // A connection that opens and closes without traffic: the server runs,
    // the handler finishes cleanly on the peer's close, and stop ends the run.
    let mut server = Lifecycle::new();
    server.start();
    assert!(server.should_continue());

    assert!(matches!(handler_step(ReadEvent::Closed), HandlerAction::Finish));

    server.stop();
    assert!(!server.should_continue());
}

#[test]
fn test_multiple_echo_messages() {
    let messages = vec![
        "Hello, World!".to_string(),
        "How are you?".to_string(),
        "Goodbye!".to_string(),
    ];

    for message_content in messages {
        let reply = reply_to(echo_request(&message_content).as_slice())
            .expect("Failed to receive response for EchoMessage");
        match response_of(reply).message {
            Some(ServerPayload::EchoMessage(echo)) => {
                assert_eq!(echo.content, message_content, "Echoed message content does not match");
            }
            _ => panic!("Expected EchoMessage, but received a different message"),
        }
    }
}

#[test]
fn test_multiple_clients() {
    // Three clients send the same ordered messages; each exchange depends on
    // its own payload alone, so every client sees exactly its own echoes.
    let client_count = 3;
    let messages = vec![
        "Hello, World!".to_string(),
        "How are you?".to_string(),
        "Goodbye!".to_string(),
    ];

    for message_content in messages {
        for _client in 0..client_count {
            let reply = reply_to(echo_request(&message_content).as_slice())
                .expect("Failed to receive response for EchoMessage");
            match response_of(reply).message {
                Some(ServerPayload::EchoMessage(echo)) => {
                    assert_eq!(
                        echo.content, message_content,
                        "Echoed message content does not match"
                    );
                }
                _ => panic!("Expected EchoMessage, but received a different message"),
            }
        }
    }
}

#[test]
fn test_client_echo_message() {
    let reply = reply_to(echo_request("Hello, World!").as_slice())
        .expect("Failed to receive response for EchoMessage");
    match response_of(reply).message {
        Some(ServerPayload::EchoMessage(echo)) => {
            assert_eq!(echo.content, "Hello, World!", "Echoed message content does not match");
        }
        _ => panic!("Expected EchoMessage, but received a different message"),
    }
}

#[test]
fn test_client_add_request() {
    let reply =
        reply_to(add_request(10, 20).as_slice()).expect("Failed to receive response for AddRequest");
    match response_of(reply).message {
        Some(ServerPayload::AddResponse(add_response)) => {
            assert_eq!(add_response.result, 10 + 20, "AddResponse result does not match");
        }
        _ => panic!("Expected AddResponse, but received a different message"),
    }
}

#[test]
fn test_empty_message() {
    let reply = reply_to(echo_request("").as_slice())
        .expect("Failed to receive response for empty message");
    match response_of(reply).message {
        Some(ServerPayload::EchoMessage(echo)) => {
            assert_eq!(echo.content, "", "Echoed message content should be empty");
        }
        _ => panic!("Expected EchoMessage, but received a different message"),
    }
}

#[test]
fn test_unknown_message() {
    let reply = reply_to(echo_request("UnknownMessage").as_slice());
    assert!(reply.is_some(), "Failed to receive response for unknown message");
}

#[test]
fn test_long_disconnection() {
    // A first exchange, a disconnect, and a fresh exchange later: the reply
    // is a function of the payload alone, so reconnecting changes nothing.
    let first = reply_to(echo_request("Hello, World!").as_slice());
    assert!(first.is_some(), "Failed to connect to the server");
    assert!(matches!(handler_step(ReadEvent::Closed), HandlerAction::Finish));

    let reply = reply_to(echo_request("Reconnected!").as_slice())
        .expect("Failed to receive response for reconnection");
    match response_of(reply).message {
        Some(ServerPayload::EchoMessage(echo)) => {
            assert_eq!(echo.content, "Reconnected!", "Echoed message content does not match");
        }
        _ => panic!("Expected EchoMessage, but received a different message"),
    }
}

#[test]
fn test_max_message_limit() {
    let message_count = 100;
    let mut payloads: Vec<Vec<u8>> = Vec::new();
    for i in 0..message_count {
        payloads.push(echo_request(&format!("Message {}", i)));
    }

    let replies = reply_to_all(&payloads);
    assert_eq!(replies.len(), message_count, "One response per message, in order");
    for (i, reply) in replies.into_iter().enumerate() {
        let reply = reply.unwrap_or_else(|| panic!("Failed to receive response for message {}", i));
        match response_of(reply).message {
            Some(ServerPayload::EchoMessage(echo)) => {
                assert_eq!(
                    echo.content,
                    format!("Message {}", i),
                    "Echoed message content does not match for message {}",
                    i
                );
            }
            _ => panic!("Expected EchoMessage, but received a different message for message {}", i),
        }
    }
}

#[test]
fn test_echo_and_add_request() {
    let reply = reply_to(echo_request("Echo Test").as_slice())
        .expect("Failed to receive EchoMessage response");
    match response_of(reply).message {
        Some(ServerPayload::EchoMessage(echo)) => {
            assert_eq!(echo.content, "Echo Test", "Echoed message content does not match");
        }
        _ => panic!("Expected EchoMessage, but received a different message"),
    }

    let reply = reply_to(add_request(5, 7).as_slice()).expect("Failed to receive AddResponse");
    match response_of(reply).message {
        Some(ServerPayload::AddResponse(add_response)) => {
            assert_eq!(add_response.result, 5 + 7, "AddResponse result does not match");
        }
        _ => panic!("Expected AddResponse, but received a different message"),
    }
}

#[test]
fn stop_is_idempotent() {
    let mut server = Lifecycle::new();
    server.start();
    assert!(server.should_continue());

    // The first stop signals the running server; the accept loop's next poll
    // ends the run.
    assert!(server.stop());
    assert!(!server.should_continue());

    // A second stop is a safe no-op.
    assert!(!server.stop());
    assert!(!server.should_continue());
}

#[test]
fn accept_loop_decisions() {
    assert!(matches!(accept_step(&AcceptEvent::Connection), AcceptAction::SpawnHandler));
    assert!(matches!(accept_step(&AcceptEvent::NotReady), AcceptAction::Pause));
    assert!(matches!(accept_step(&AcceptEvent::Failed), AcceptAction::LogAndContinue));
}

#[test]
fn read_loop_decisions() {
    assert!(matches!(handler_step(ReadEvent::Closed), HandlerAction::Finish));
    assert!(matches!(handler_step(ReadEvent::NotReady), HandlerAction::Backoff));
    assert!(matches!(handler_step(ReadEvent::Failed), HandlerAction::Fail));
    assert!(matches!(
        handler_step(ReadEvent::Payload(echo_request("hi"))),
        HandlerAction::Reply(_)
    ));
    assert!(matches!(
        handler_step(ReadEvent::Payload(vec![0xFF])),
        HandlerAction::KeepReading
    ));
}
