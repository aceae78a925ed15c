//! The wire format: how a message travels as bytes.
//!
//! A message is a sequence of tagged fields. A tag byte holds a field number
//! in its upper five bits and a wire kind in its lower three: kind 0 is a
//! variable-length integer, kind 2 a length-prefixed byte string. A field
//! whose value is empty or zero is omitted. A message with a payload is one
//! length-prefixed field whose number names the variant and whose bytes are
//! the payload's own fields; a message without a payload is empty.
//!
//! A 32-bit integer travels as the variable-length encoding of its 64-bit
//! sign extension; the decoder keeps the low 32 bits. Text travels as UTF-8.

use vstd::prelude::*;
use vstd::slice::{slice_subrange, slice_to_vec};
use vstd::string::StrSliceExecFns;
use vstd::utf8::{decode_utf8, encode_utf8, valid_utf8};

use crate::message::{
    AddRequest, AddResponse, ClientMessage, ClientMsgV, ClientPayload, EchoMessage, ServerMessage,
    ServerMsgV, ServerPayload,
};
use crate::varint::{
    encode_varint, lemma_take_varint_of_encoding, lemma_varint_len, spec_take_varint, spec_varint,
    take_varint,
};

verus! {

/// Tag of field number 1 with length-prefixed contents.
pub const TAG_FIELD1_LEN: u8 = 0x0A;

/// Tag of field number 2 with length-prefixed contents.
pub const TAG_FIELD2_LEN: u8 = 0x12;

/// Tag of field number 1 holding a variable-length integer.
pub const TAG_FIELD1_VARINT: u8 = 0x08;

/// Tag of field number 2 holding a variable-length integer.
pub const TAG_FIELD2_VARINT: u8 = 0x10;

/// The 64-bit sign extension of a 32-bit integer.
pub open spec fn wide_of_i32(v: i32) -> u64 {
    if v >= 0 {
        v as u64
    } else {
        (0x1_0000_0000_0000_0000 + v) as u64
    }
}

/// The low 32 bits of a 64-bit integer, read as a signed value.
pub open spec fn i32_of_wide(w: u64) -> i32 {
    let low = w as int % 0x1_0000_0000;
    if low >= 0x8000_0000 {
        (low - 0x1_0000_0000) as i32
    } else {
        low as i32
    }
}

/// Widening and narrowing give back the original 32-bit value.
pub proof fn lemma_wide_round_trip(v: i32)
    ensures
        i32_of_wide(wide_of_i32(v)) == v,
{
    if v >= 0 {
        assert(v as u64 as int % 0x1_0000_0000 == v) by (nonlinear_arith)
            requires
                0 <= v < 0x8000_0000,
        ;
    } else {
        let w = (0x1_0000_0000_0000_0000 + v) as u64;
        assert(w as int % 0x1_0000_0000 == 0x1_0000_0000 + v) by (nonlinear_arith)
            requires
                -0x8000_0000 <= v < 0,
                w == 0x1_0000_0000_0000_0000 + v,
        ;
    }
}

/// Computes [`wide_of_i32`].
pub fn i32_to_wide(v: i32) -> (r: u64)
    ensures
        r == wide_of_i32(v),
{
    if v >= 0 {
        v as u64
    } else {
        let magnitude = -(v as i64);
        u64::MAX - (magnitude as u64) + 1
    }
}

/// Computes [`i32_of_wide`].
pub fn wide_to_i32(w: u64) -> (r: i32)
    ensures
        r == i32_of_wide(w),
{
    let low = w % 0x1_0000_0000;
    if low >= 0x8000_0000 {
        ((low as i64) - 0x1_0000_0000_i64) as i32
    } else {
        low as i32
    }
}

/// The fields of an echo payload: its text as one length-prefixed UTF-8
/// field, or nothing when the text is empty.
pub open spec fn spec_echo_fields(content: Seq<char>) -> Seq<u8> {
    if content.len() == 0 {
        seq![]
    } else {
        seq![TAG_FIELD1_LEN] + spec_varint(encode_utf8(content).len() as u64) + encode_utf8(
            content,
        )
    }
}

/// One integer field: its tag and the widened value, or nothing when zero.
pub open spec fn spec_i32_field(tag: u8, v: i32) -> Seq<u8> {
    if v == 0 {
        seq![]
    } else {
        seq![tag] + spec_varint(wide_of_i32(v))
    }
}

/// The fields of an addition request: the two operands.
pub open spec fn spec_add_request_fields(a: i32, b: i32) -> Seq<u8> {
    spec_i32_field(TAG_FIELD1_VARINT, a) + spec_i32_field(TAG_FIELD2_VARINT, b)
}

/// The fields of an addition result: the sum.
pub open spec fn spec_add_response_fields(result: i32) -> Seq<u8> {
    spec_i32_field(TAG_FIELD1_VARINT, result)
}

/// A payload wrapped as one length-prefixed field of the outer message.
pub open spec fn spec_wrapped(tag: u8, body: Seq<u8>) -> Seq<u8> {
    seq![tag] + spec_varint(body.len() as u64) + body
}

/// The bytes of a client message.
pub open spec fn spec_encode_client(m: ClientMsgV) -> Seq<u8> {
    match m {
        ClientMsgV::Empty => seq![],
        ClientMsgV::Echo { content } => spec_wrapped(TAG_FIELD1_LEN, spec_echo_fields(content)),
        ClientMsgV::Add { a, b } => spec_wrapped(TAG_FIELD2_LEN, spec_add_request_fields(a, b)),
    }
}

/// The bytes of a server message.
pub open spec fn spec_encode_server(m: ServerMsgV) -> Seq<u8> {
    match m {
        ServerMsgV::Empty => seq![],
        ServerMsgV::Echo { content } => spec_wrapped(TAG_FIELD1_LEN, spec_echo_fields(content)),
        ServerMsgV::AddResult { result } => spec_wrapped(
            TAG_FIELD2_LEN,
            spec_add_response_fields(result),
        ),
    }
}

/// Wraps a payload as one length-prefixed field.
fn wrap(tag: u8, body: Vec<u8>) -> (out: Vec<u8>)
    ensures
        out@ == spec_wrapped(tag, body@),
{
    let ghost fields = body@;
    let mut out: Vec<u8> = Vec::new();
    out.push(tag);
    encode_varint(body.len() as u64, &mut out);
    let mut body = body;
    out.append(&mut body);
    assert(out@ =~= spec_wrapped(tag, fields));
    out
}

/// Appends the fields of an echo payload.
fn encode_echo_fields(content: &String) -> (out: Vec<u8>)
    ensures
        out@ == spec_echo_fields(content@),
{
    let s = content.as_str();
    if s.is_empty() {
        Vec::new()
    } else {
        let bytes = s.as_bytes_vec();
        let mut out: Vec<u8> = Vec::new();
        out.push(TAG_FIELD1_LEN);
        encode_varint(bytes.len() as u64, &mut out);
        let mut bytes = bytes;
        out.append(&mut bytes);
        assert(out@ =~= spec_echo_fields(content@));
        out
    }
}

/// Appends one integer field.
fn encode_i32_field(tag: u8, v: i32, out: &mut Vec<u8>)
    ensures
        final(out)@ == old(out)@ + spec_i32_field(tag, v),
{
    if v != 0 {
        let ghost prefix = out@;
        out.push(tag);
        encode_varint(i32_to_wide(v), out);
        assert(out@ =~= prefix + spec_i32_field(tag, v));
    } else {
        assert(out@ =~= out@ + spec_i32_field(tag, v));
    }
}

/// Encodes a client message.
pub fn encode_client_message(m: &ClientMessage) -> (out: Vec<u8>)
    ensures
        out@ == spec_encode_client(m@),
{
    match &m.message {
        None => Vec::new(),
        Some(ClientPayload::EchoMessage(e)) => wrap(TAG_FIELD1_LEN, encode_echo_fields(&e.content)),
        Some(ClientPayload::AddRequest(r)) => {
            let mut body: Vec<u8> = Vec::new();
            encode_i32_field(TAG_FIELD1_VARINT, r.a, &mut body);
            encode_i32_field(TAG_FIELD2_VARINT, r.b, &mut body);
            assert(body@ =~= spec_add_request_fields(r.a, r.b));
            wrap(TAG_FIELD2_LEN, body)
        },
    }
}

/// Encodes a server message.
pub fn encode_server_message(m: &ServerMessage) -> (out: Vec<u8>)
    ensures
        out@ == spec_encode_server(m@),
{
    match &m.message {
        None => Vec::new(),
        Some(ServerPayload::EchoMessage(e)) => wrap(TAG_FIELD1_LEN, encode_echo_fields(&e.content)),
        Some(ServerPayload::AddResponse(r)) => {
            let mut body: Vec<u8> = Vec::new();
            encode_i32_field(TAG_FIELD1_VARINT, r.result, &mut body);
            assert(body@ =~= spec_add_response_fields(r.result));
            wrap(TAG_FIELD2_LEN, body)
        },
    }
}

/// What decoding the fields of an echo payload yields: empty fields mean
/// empty text; otherwise one length-prefixed field of valid UTF-8 filling
/// the payload exactly.
pub open spec fn spec_decode_echo_fields(bytes: Seq<u8>) -> Option<Seq<char>> {
    if bytes.len() == 0 {
        Some(Seq::empty())
    } else if bytes[0] == TAG_FIELD1_LEN {
        match spec_take_varint(bytes.drop_first()) {
            None => None,
            Some((len, used)) => {
                let start = 1 + used;
                if bytes.len() - start == len {
                    let payload = bytes.skip(start);
                    if valid_utf8(payload) {
                        Some(decode_utf8(payload))
                    } else {
                        None
                    }
                } else {
                    None
                }
            },
        }
    } else {
        None
    }
}

/// What reading one optional integer field yields: the value and the bytes
/// consumed; a missing field reads as zero and consumes nothing.
pub open spec fn spec_take_i32_field(bytes: Seq<u8>, tag: u8) -> Option<(i32, int)> {
    if bytes.len() == 0 || bytes[0] != tag {
        Some((0, 0))
    } else {
        match spec_take_varint(bytes.drop_first()) {
            None => None,
            Some((w, used)) => Some((i32_of_wide(w), 1 + used)),
        }
    }
}

/// What decoding the fields of an addition request yields: the two operands,
/// in field order, filling the payload exactly.
pub open spec fn spec_decode_add_request_fields(bytes: Seq<u8>) -> Option<(i32, i32)> {
    match spec_take_i32_field(bytes, TAG_FIELD1_VARINT) {
        None => None,
        Some((a, n1)) => match spec_take_i32_field(bytes.skip(n1), TAG_FIELD2_VARINT) {
            None => None,
            Some((b, n2)) => if n1 + n2 == bytes.len() {
                Some((a, b))
            } else {
                None
            },
        },
    }
}

/// What decoding the fields of an addition result yields: the sum, filling
/// the payload exactly.
pub open spec fn spec_decode_add_response_fields(bytes: Seq<u8>) -> Option<i32> {
    match spec_take_i32_field(bytes, TAG_FIELD1_VARINT) {
        None => None,
        Some((result, n)) => if n == bytes.len() {
            Some(result)
        } else {
            None
        },
    }
}

/// What decoding a client message yields: an empty buffer is a message
/// without a payload; otherwise one length-prefixed field, numbered for the
/// variant, filling the buffer exactly.
pub open spec fn spec_decode_client(bytes: Seq<u8>) -> Option<ClientMsgV> {
    if bytes.len() == 0 {
        Some(ClientMsgV::Empty)
    } else if bytes[0] == TAG_FIELD1_LEN || bytes[0] == TAG_FIELD2_LEN {
        match spec_take_varint(bytes.drop_first()) {
            None => None,
            Some((len, used)) => {
                let start = 1 + used;
                if bytes.len() - start == len {
                    let body = bytes.skip(start);
                    if bytes[0] == TAG_FIELD1_LEN {
                        match spec_decode_echo_fields(body) {
                            None => None,
                            Some(content) => Some(ClientMsgV::Echo { content }),
                        }
                    } else {
                        match spec_decode_add_request_fields(body) {
                            None => None,
                            Some((a, b)) => Some(ClientMsgV::Add { a, b }),
                        }
                    }
                } else {
                    None
                }
            },
        }
    } else {
        None
    }
}

/// What decoding a server message yields, under the same framing as
/// [`spec_decode_client`].
pub open spec fn spec_decode_server(bytes: Seq<u8>) -> Option<ServerMsgV> {
    if bytes.len() == 0 {
        Some(ServerMsgV::Empty)
    } else if bytes[0] == TAG_FIELD1_LEN || bytes[0] == TAG_FIELD2_LEN {
        match spec_take_varint(bytes.drop_first()) {
            None => None,
            Some((len, used)) => {
                let start = 1 + used;
                if bytes.len() - start == len {
                    let body = bytes.skip(start);
                    if bytes[0] == TAG_FIELD1_LEN {
                        match spec_decode_echo_fields(body) {
                            None => None,
                            Some(content) => Some(ServerMsgV::Echo { content }),
                        }
                    } else {
                        match spec_decode_add_response_fields(body) {
                            None => None,
                            Some(result) => Some(ServerMsgV::AddResult { result }),
                        }
                    }
                } else {
                    None
                }
            },
        }
    } else {
        None
    }
}

/// Whether a message's length prefixes fit the wire's 64-bit counters; every
/// message whose text lives in memory does.
pub open spec fn client_msg_fits(m: ClientMsgV) -> bool {
    match m {
        ClientMsgV::Echo { content } => encode_utf8(content).len() + 11 <= u64::MAX,
        _ => true,
    }
}

/// The counterpart of [`client_msg_fits`] for server messages.
pub open spec fn server_msg_fits(m: ServerMsgV) -> bool {
    match m {
        ServerMsgV::Echo { content } => encode_utf8(content).len() + 11 <= u64::MAX,
        _ => true,
    }
}

/// A wrapped payload is read back as its tag, its length and the payload
/// itself, exactly filling the buffer.
proof fn lemma_unwrap(tag: u8, body: Seq<u8>)
    requires
        body.len() <= u64::MAX,
    ensures
        ({
            let bytes = spec_wrapped(tag, body);
            let prefix_len = 1 + spec_varint(body.len() as u64).len();
            &&& bytes.len() > 0
            &&& bytes[0] == tag
            &&& spec_take_varint(bytes.drop_first()) == Some(
                (body.len() as u64, prefix_len - 1),
            )
            &&& bytes.len() - prefix_len == body.len() as u64
            &&& bytes.skip(prefix_len as int) == body
        }),
{
    let ln = body.len() as u64;
    let bytes = spec_wrapped(tag, body);
    lemma_take_varint_of_encoding(ln, body);
    assert(bytes.drop_first() =~= spec_varint(ln) + body);
    assert(bytes.skip(1 + spec_varint(ln).len() as int) =~= body);
}

/// Law: the fields of an echo payload decode back to its text.
pub proof fn lemma_echo_fields_round_trip(content: Seq<char>)
    requires
        encode_utf8(content).len() <= u64::MAX,
    ensures
        spec_decode_echo_fields(spec_echo_fields(content)) == Some(content),
{
    broadcast use vstd::utf8::encode_utf8_valid_utf8;
    broadcast use vstd::utf8::encode_utf8_decode_utf8;

    if content.len() == 0 {
        assert(content =~= Seq::<char>::empty());
    } else {
        let text = encode_utf8(content);
        let ln = text.len() as u64;
        let bytes = spec_echo_fields(content);
        lemma_take_varint_of_encoding(ln, text);
        assert(bytes[0] == TAG_FIELD1_LEN);
        assert(bytes.drop_first() =~= spec_varint(ln) + text);
        let start = 1 + spec_varint(ln).len();
        assert(bytes.skip(start as int) =~= text);
    }
}

/// Law: the fields of an addition request decode back to its operands.
pub proof fn lemma_add_request_fields_round_trip(a: i32, b: i32)
    ensures
        spec_decode_add_request_fields(spec_add_request_fields(a, b)) == Some((a, b)),
{
    let f1 = spec_i32_field(TAG_FIELD1_VARINT, a);
    let f2 = spec_i32_field(TAG_FIELD2_VARINT, b);
    let body = spec_add_request_fields(a, b);
    if a == 0 {
        assert(body =~= f2);
        if b != 0 {
            assert(body[0] == TAG_FIELD2_VARINT);
        }
        assert(spec_take_i32_field(body, TAG_FIELD1_VARINT) == Some((0i32, 0int)));
    } else {
        assert(body[0] == TAG_FIELD1_VARINT);
        assert(body.drop_first() =~= spec_varint(wide_of_i32(a)) + f2);
        lemma_take_varint_of_encoding(wide_of_i32(a), f2);
        lemma_wide_round_trip(a);
    }
    assert(spec_take_i32_field(body, TAG_FIELD1_VARINT) == Some((a, f1.len() as int)));
    assert(body.skip(f1.len() as int) =~= f2);
    if b == 0 {
        assert(spec_take_i32_field(f2, TAG_FIELD2_VARINT) == Some((0i32, 0int)));
    } else {
        assert(f2[0] == TAG_FIELD2_VARINT);
        assert(f2.drop_first() =~= spec_varint(wide_of_i32(b)) + Seq::<u8>::empty());
        lemma_take_varint_of_encoding(wide_of_i32(b), Seq::<u8>::empty());
        lemma_wide_round_trip(b);
    }
    assert(spec_take_i32_field(f2, TAG_FIELD2_VARINT) == Some((b, f2.len() as int)));
}

/// Law: the fields of an addition result decode back to its sum.
pub proof fn lemma_add_response_fields_round_trip(result: i32)
    ensures
        spec_decode_add_response_fields(spec_add_response_fields(result)) == Some(result),
{
    let body = spec_add_response_fields(result);
    if result == 0 {
        assert(spec_take_i32_field(body, TAG_FIELD1_VARINT) == Some((0i32, 0int)));
    } else {
        assert(body[0] == TAG_FIELD1_VARINT);
        assert(body.drop_first() =~= spec_varint(wide_of_i32(result)) + Seq::<u8>::empty());
        lemma_take_varint_of_encoding(wide_of_i32(result), Seq::<u8>::empty());
        lemma_wide_round_trip(result);
    }
    assert(spec_take_i32_field(body, TAG_FIELD1_VARINT) == Some((result, body.len() as int)));
}

/// Law: decoding an encoded client message gives back exactly that message.
pub proof fn lemma_client_round_trip(m: ClientMsgV)
    requires
        client_msg_fits(m),
    ensures
        spec_decode_client(spec_encode_client(m)) == Some(m),
{
    match m {
        ClientMsgV::Empty => {},
        ClientMsgV::Echo { content } => {
            let body = spec_echo_fields(content);
            if content.len() > 0 {
                lemma_varint_len(encode_utf8(content).len() as u64);
            }
            lemma_unwrap(TAG_FIELD1_LEN, body);
            lemma_echo_fields_round_trip(content);
        },
        ClientMsgV::Add { a, b } => {
            let body = spec_add_request_fields(a, b);
            lemma_varint_len(wide_of_i32(a));
            lemma_varint_len(wide_of_i32(b));
            lemma_unwrap(TAG_FIELD2_LEN, body);
            lemma_add_request_fields_round_trip(a, b);
        },
    }
}

/// Law: decoding an encoded server message gives back exactly that message.
pub proof fn lemma_server_round_trip(m: ServerMsgV)
    requires
        server_msg_fits(m),
    ensures
        spec_decode_server(spec_encode_server(m)) == Some(m),
{
    match m {
        ServerMsgV::Empty => {},
        ServerMsgV::Echo { content } => {
            let body = spec_echo_fields(content);
            if content.len() > 0 {
                lemma_varint_len(encode_utf8(content).len() as u64);
            }
            lemma_unwrap(TAG_FIELD1_LEN, body);
            lemma_echo_fields_round_trip(content);
        },
        ServerMsgV::AddResult { result } => {
            let body = spec_add_response_fields(result);
            lemma_varint_len(wide_of_i32(result));
            lemma_unwrap(TAG_FIELD2_LEN, body);
            lemma_add_response_fields_round_trip(result);
        },
    }
}

/// Relies on `String::from_utf8`: returns the text that the bytes encode as
/// UTF-8, and fails exactly when they are not valid UTF-8.
#[verifier::external_body]
fn string_from_utf8(bytes: Vec<u8>) -> (r: Option<String>)
    ensures
        match r {
            Some(s) => valid_utf8(bytes@) && s@ == decode_utf8(bytes@),
            None => !valid_utf8(bytes@),
        },
{
    String::from_utf8(bytes).ok()
}

/// Decodes the fields of an echo payload.
fn decode_echo_fields(body: &[u8]) -> (r: Option<EchoMessage>)
    ensures
        match r {
            Some(e) => spec_decode_echo_fields(body@) == Some(e.content@),
            None => spec_decode_echo_fields(body@) is None,
        },
{
    if body.len() == 0 {
        Some(EchoMessage { content: String::new() })
    } else if body[0] == TAG_FIELD1_LEN {
        assert(body@.drop_first() =~= body@.skip(1));
        match take_varint(body, 1) {
            None => None,
            Some((len, end)) => {
                if (body.len() - end) as u64 == len {
                    let payload = slice_to_vec(slice_subrange(body, end, body.len()));
                    assert(payload@ =~= body@.skip(end as int));
                    match string_from_utf8(payload) {
                        None => None,
                        Some(s) => Some(EchoMessage { content: s }),
                    }
                } else {
                    None
                }
            },
        }
    } else {
        None
    }
}

/// Reads one optional integer field starting at `pos`.
fn take_i32_field(data: &[u8], pos: usize, tag: u8) -> (r: Option<(i32, usize)>)
    requires
        pos <= data@.len(),
    ensures
        match r {
            Some((v, end)) => {
                &&& pos <= end <= data@.len()
                &&& spec_take_i32_field(data@.skip(pos as int), tag) == Some((v, end - pos))
            },
            None => spec_take_i32_field(data@.skip(pos as int), tag) is None,
        },
{
    if pos == data.len() {
        Some((0, pos))
    } else if data[pos] != tag {
        assert(data@.skip(pos as int)[0] == data@[pos as int]);
        Some((0, pos))
    } else {
        assert(data@.skip(pos as int)[0] == data@[pos as int]);
        assert(data@.skip(pos as int).drop_first() =~= data@.skip(pos as int + 1));
        match take_varint(data, pos + 1) {
            None => None,
            Some((w, end)) => Some((wide_to_i32(w), end)),
        }
    }
}

/// Decodes the fields of an addition request.
fn decode_add_request_fields(body: &[u8]) -> (r: Option<AddRequest>)
    ensures
        match r {
            Some(q) => spec_decode_add_request_fields(body@) == Some((q.a, q.b)),
            None => spec_decode_add_request_fields(body@) is None,
        },
{
    assert(body@.skip(0) =~= body@);
    match take_i32_field(body, 0, TAG_FIELD1_VARINT) {
        None => None,
        Some((a, p1)) => {
            match take_i32_field(body, p1, TAG_FIELD2_VARINT) {
                None => None,
                Some((b, p2)) => {
                    if p2 == body.len() {
                        Some(AddRequest { a, b })
                    } else {
                        None
                    }
                },
            }
        },
    }
}

/// Decodes the fields of an addition result.
fn decode_add_response_fields(body: &[u8]) -> (r: Option<AddResponse>)
    ensures
        match r {
            Some(q) => spec_decode_add_response_fields(body@) == Some(q.result),
            None => spec_decode_add_response_fields(body@) is None,
        },
{
    assert(body@.skip(0) =~= body@);
    match take_i32_field(body, 0, TAG_FIELD1_VARINT) {
        None => None,
        Some((result, p)) => {
            if p == body.len() {
                Some(AddResponse { result })
            } else {
                None
            }
        },
    }
}

/// Decodes a client message.
pub fn decode_client_message(data: &[u8]) -> (r: Option<ClientMessage>)
    ensures
        match r {
            Some(m) => spec_decode_client(data@) == Some(m@),
            None => spec_decode_client(data@) is None,
        },
{
    if data.len() == 0 {
        Some(ClientMessage { message: None })
    } else if data[0] == TAG_FIELD1_LEN || data[0] == TAG_FIELD2_LEN {
        assert(data@.drop_first() =~= data@.skip(1));
        match take_varint(data, 1) {
            None => None,
            Some((len, end)) => {
                if (data.len() - end) as u64 == len {
                    let body = slice_subrange(data, end, data.len());
                    assert(body@ =~= data@.skip(end as int));
                    if data[0] == TAG_FIELD1_LEN {
                        match decode_echo_fields(body) {
                            None => None,
                            Some(e) => Some(
                                ClientMessage { message: Some(ClientPayload::EchoMessage(e)) },
                            ),
                        }
                    } else {
                        match decode_add_request_fields(body) {
                            None => None,
                            Some(q) => Some(
                                ClientMessage { message: Some(ClientPayload::AddRequest(q)) },
                            ),
                        }
                    }
                } else {
                    None
                }
            },
        }
    } else {
        None
    }
}

/// Decodes a server message.
pub fn decode_server_message(data: &[u8]) -> (r: Option<ServerMessage>)
    ensures
        match r {
            Some(m) => spec_decode_server(data@) == Some(m@),
            None => spec_decode_server(data@) is None,
        },
{
    if data.len() == 0 {
        Some(ServerMessage { message: None })
    } else if data[0] == TAG_FIELD1_LEN || data[0] == TAG_FIELD2_LEN {
        assert(data@.drop_first() =~= data@.skip(1));
        match take_varint(data, 1) {
            None => None,
            Some((len, end)) => {
                if (data.len() - end) as u64 == len {
                    let body = slice_subrange(data, end, data.len());
                    assert(body@ =~= data@.skip(end as int));
                    if data[0] == TAG_FIELD1_LEN {
                        match decode_echo_fields(body) {
                            None => None,
                            Some(e) => Some(
                                ServerMessage { message: Some(ServerPayload::EchoMessage(e)) },
                            ),
                        }
                    } else {
                        match decode_add_response_fields(body) {
                            None => None,
                            Some(q) => Some(
                                ServerMessage { message: Some(ServerPayload::AddResponse(q)) },
                            ),
                        }
                    }
                } else {
                    None
                }
            },
        }
    } else {
        None
    }
}

} // verus!
