//! Exact bytes of the wire format, and its treatment of malformed input.

use message_server::codec::{
    decode_client_message, decode_server_message, encode_client_message, encode_server_message,
};
use message_server::handler::reply_to;
use message_server::message::{
    AddRequest, AddResponse, ClientMessage, ClientPayload, EchoMessage, ServerMessage,
    ServerPayload,
};
use message_server::varint::{encode_varint, take_varint};

fn echo_msg(content: &str) -> ClientMessage {
    ClientMessage {
        message: Some(ClientPayload::EchoMessage(EchoMessage { content: content.to_string() })),
    }
}

fn add_msg(a: i32, b: i32) -> ClientMessage {
    ClientMessage { message: Some(ClientPayload::AddRequest(AddRequest { a, b })) }
}

fn varint_bytes(n: u64) -> Vec<u8> {
    let mut out = Vec::new();
    encode_varint(n, &mut out);
    out
}

#[test]
fn varint_exact_bytes() {
    assert_eq!(varint_bytes(0), vec![0x00]);
    assert_eq!(varint_bytes(1), vec![0x01]);
    assert_eq!(varint_bytes(127), vec![0x7F]);
    assert_eq!(varint_bytes(128), vec![0x80, 0x01]);
    assert_eq!(varint_bytes(300), vec![0xAC, 0x02]);
    assert_eq!(
        varint_bytes(u64::MAX),
        vec![0xFF, 0xFF, 0xFF, 0xFF, 0xFF, 0xFF, 0xFF, 0xFF, 0xFF, 0x01]
    );
}

#[test]
fn varint_decoding() {
    // Canonical encodings come back exactly.
    for n in [0u64, 1, 127, 128, 300, 0xFFFF_FFFF, u64::MAX] {
        let bytes = varint_bytes(n);
        assert_eq!(take_varint(bytes.as_slice(), 0), Some((n, bytes.len())));
    }
    // A non-canonical spelling of zero is accepted.
    assert_eq!(take_varint(&[0x80, 0x00], 0), Some((0, 2)));
    // A truncated encoding is rejected.
    assert_eq!(take_varint(&[0x80], 0), None);
    assert_eq!(take_varint(&[], 0), None);
    // Eleven bytes are rejected even when the value would fit.
    let eleven = [0x80, 0x80, 0x80, 0x80, 0x80, 0x80, 0x80, 0x80, 0x80, 0x80, 0x00];
    assert_eq!(take_varint(&eleven, 0), None);
    // A value overflowing 64 bits is rejected.
    let too_big = [0xFF, 0xFF, 0xFF, 0xFF, 0xFF, 0xFF, 0xFF, 0xFF, 0xFF, 0x02];
    assert_eq!(take_varint(&too_big, 0), None);
    // Decoding starts at the given position.
    assert_eq!(take_varint(&[0x00, 0xAC, 0x02], 1), Some((300, 3)));
}

#[test]
fn client_message_exact_bytes() {
    assert_eq!(encode_client_message(&ClientMessage { message: None }), Vec::<u8>::new());
    assert_eq!(encode_client_message(&echo_msg("")), vec![0x0A, 0x00]);
    assert_eq!(encode_client_message(&echo_msg("A")), vec![0x0A, 0x03, 0x0A, 0x01, 0x41]);
    assert_eq!(
        encode_client_message(&echo_msg("hi")),
        vec![0x0A, 0x04, 0x0A, 0x02, 0x68, 0x69]
    );
    assert_eq!(encode_client_message(&add_msg(0, 0)), vec![0x12, 0x00]);
    assert_eq!(
        encode_client_message(&add_msg(10, 20)),
        vec![0x12, 0x04, 0x08, 0x0A, 0x10, 0x14]
    );
    // A zero operand is omitted from the wire.
    assert_eq!(encode_client_message(&add_msg(0, 20)), vec![0x12, 0x02, 0x10, 0x14]);
    // A negative operand travels as its 64-bit sign extension.
    assert_eq!(
        encode_client_message(&add_msg(-1, 0)),
        vec![0x12, 0x0B, 0x08, 0xFF, 0xFF, 0xFF, 0xFF, 0xFF, 0xFF, 0xFF, 0xFF, 0xFF, 0x01]
    );
}

#[test]
fn server_message_exact_bytes() {
    let echo = ServerMessage {
        message: Some(ServerPayload::EchoMessage(EchoMessage { content: "A".to_string() })),
    };
    assert_eq!(encode_server_message(&echo), vec![0x0A, 0x03, 0x0A, 0x01, 0x41]);
    let sum = ServerMessage {
        message: Some(ServerPayload::AddResponse(AddResponse { result: 30 })),
    };
    assert_eq!(encode_server_message(&sum), vec![0x12, 0x02, 0x08, 0x1E]);
}

#[test]
fn client_message_round_trips() {
    let cases = vec![
        echo_msg(""),
        echo_msg("Hello, World!"),
        echo_msg("naïve — ünïcode ✓"),
        add_msg(0, 0),
        add_msg(10, 20),
        add_msg(-1, 1),
        add_msg(i32::MIN, i32::MAX),
        ClientMessage { message: None },
    ];
    for m in cases {
        let bytes = encode_client_message(&m);
        let back = decode_client_message(bytes.as_slice()).expect("canonical bytes must decode");
        match (m.message, back.message) {
            (None, None) => {}
            (Some(ClientPayload::EchoMessage(a)), Some(ClientPayload::EchoMessage(b))) => {
                assert_eq!(a.content, b.content);
            }
            (Some(ClientPayload::AddRequest(a)), Some(ClientPayload::AddRequest(b))) => {
                assert_eq!(a.a, b.a);
                assert_eq!(a.b, b.b);
            }
            _ => panic!("decoded message has the wrong variant"),
        }
    }
}

#[test]
fn server_message_round_trips() {
    let cases = vec![
        ServerMessage { message: None },
        ServerMessage {
            message: Some(ServerPayload::EchoMessage(EchoMessage { content: "ok".to_string() })),
        },
        ServerMessage { message: Some(ServerPayload::AddResponse(AddResponse { result: -7 })) },
    ];
    for m in cases {
        let bytes = encode_server_message(&m);
        let back = decode_server_message(bytes.as_slice()).expect("canonical bytes must decode");
        match (m.message, back.message) {
            (None, None) => {}
            (Some(ServerPayload::EchoMessage(a)), Some(ServerPayload::EchoMessage(b))) => {
                assert_eq!(a.content, b.content);
            }
            (Some(ServerPayload::AddResponse(a)), Some(ServerPayload::AddResponse(b))) => {
                assert_eq!(a.result, b.result);
            }
            _ => panic!("decoded message has the wrong variant"),
        }
    }
}

#[test]
fn malformed_payloads_are_rejected_without_reply() {
    let malformed: Vec<Vec<u8>> = vec![
        // An unknown tag.
        vec![0xFF],
        // A plain varint where a field should be.
        vec![0x08, 0x01],
        // A truncated length prefix.
        vec![0x0A],
        vec![0x0A, 0x80],
        // A length prefix longer than the buffer.
        vec![0x0A, 0x05, 0x00],
        // Trailing bytes after the payload.
        vec![0x0A, 0x00, 0x00],
        // An echo payload whose text is not valid UTF-8.
        vec![0x0A, 0x03, 0x0A, 0x01, 0xFF],
        // An addition payload with fields out of order.
        vec![0x12, 0x04, 0x10, 0x14, 0x08, 0x0A],
        // An addition payload with an unknown field.
        vec![0x12, 0x02, 0x18, 0x01],
    ];
    for bytes in malformed {
        assert!(decode_client_message(bytes.as_slice()).is_none(), "must reject {:?}", bytes);
        assert!(reply_to(bytes.as_slice()).is_none(), "must not reply to {:?}", bytes);
    }
}

#[test]
fn empty_payload_draws_no_reply() {
    // An empty buffer decodes to a message without a recognized payload; the
    // server logs it and sends nothing back.
    let empty: Vec<u8> = Vec::new();
    let decoded = decode_client_message(empty.as_slice()).expect("empty buffer decodes");
    assert!(decoded.message.is_none());
    assert!(reply_to(empty.as_slice()).is_none());
}

#[test]
fn addition_wraps_at_32_bits() {
    let reply = reply_to(encode_client_message(&add_msg(i32::MAX, 1)).as_slice())
        .expect("reply expected");
    match decode_server_message(reply.as_slice()).expect("reply decodes").message {
        Some(ServerPayload::AddResponse(r)) => assert_eq!(r.result, i32::MIN),
        _ => panic!("Expected AddResponse, but received a different message"),
    }

    let reply = reply_to(encode_client_message(&add_msg(-3, -4)).as_slice())
        .expect("reply expected");
    match decode_server_message(reply.as_slice()).expect("reply decodes").message {
        Some(ServerPayload::AddResponse(r)) => assert_eq!(r.result, -7),
        _ => panic!("Expected AddResponse, but received a different message"),
    }
}
