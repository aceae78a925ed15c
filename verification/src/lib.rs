//! A connection-oriented request/response server core.
//!
//! The library holds everything about the server that can be stated and
//! proved: the wire format of its messages, the decoder and encoder, the
//! dispatch from a request to its response, and the decisions of the accept
//! loop, the per-connection read loop, and the shutdown flag. The sockets,
//! threads and timers that carry those decisions out live outside of it.

pub mod codec;
pub mod framing;
pub mod handler;
pub mod lifecycle;
pub mod message;
pub mod varint;
