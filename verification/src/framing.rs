//! Explicit length-prefixed framing.
//!
//! The raw exchange assumes that one read of the transport delivers exactly
//! one encoded message. A byte stream does not promise that: reads may split
//! or join messages. This module supplies the robust alternative: a frame is
//! a four-byte big-endian length followed by exactly that many payload bytes,
//! and a [`FrameBuffer`] gathers whatever the reads deliver and hands back
//! whole payloads, however the stream was cut.

use vstd::prelude::*;
use vstd::slice::{slice_subrange, slice_to_vec};

verus! {

/// The four-byte big-endian spelling of a length.
pub open spec fn spec_len_header(n: u32) -> Seq<u8> {
    seq![
        (n / 0x100_0000) as u8,
        ((n / 0x1_0000) % 0x100) as u8,
        ((n / 0x100) % 0x100) as u8,
        (n % 0x100) as u8,
    ]
}

/// The length a four-byte big-endian header spells.
pub open spec fn spec_header_value(b0: u8, b1: u8, b2: u8, b3: u8) -> int {
    0x100_0000 * (b0 as int) + 0x1_0000 * (b1 as int) + 0x100 * (b2 as int) + (b3 as int)
}

/// A payload as one frame: its length, then its bytes.
pub open spec fn spec_frame(payload: Seq<u8>) -> Seq<u8> {
    spec_len_header(payload.len() as u32) + payload
}

/// What splitting one frame off the front of `bytes` yields: the payload and
/// the bytes consumed, or `None` while the frame is still incomplete.
pub open spec fn spec_take_frame(bytes: Seq<u8>) -> Option<(Seq<u8>, int)> {
    if bytes.len() < 4 {
        None
    } else {
        let n = spec_header_value(bytes[0], bytes[1], bytes[2], bytes[3]);
        if bytes.len() >= 4 + n {
            Some((bytes.subrange(4, 4 + n), 4 + n))
        } else {
            None
        }
    }
}

/// A header spells back the length it was made from.
proof fn lemma_header_round_trip(n: u32)
    ensures
        spec_header_value(
            (n / 0x100_0000) as u8,
            ((n / 0x1_0000) % 0x100) as u8,
            ((n / 0x100) % 0x100) as u8,
            (n % 0x100) as u8,
        ) == n,
{
    assert(0x100_0000 * ((n / 0x100_0000) as int) + 0x1_0000 * (((n / 0x1_0000) % 0x100) as int)
        + 0x100 * (((n / 0x100) % 0x100) as int) + ((n % 0x100) as int) == n) by (bit_vector);
}

/// Law: a framed payload is split back into exactly that payload, consuming
/// exactly the frame, whatever follows it in the stream.
pub proof fn lemma_take_frame_of_frame(payload: Seq<u8>, rest: Seq<u8>)
    requires
        payload.len() < 0x1_0000_0000,
    ensures
        spec_take_frame(spec_frame(payload) + rest) == Some(
            (payload, spec_frame(payload).len() as int),
        ),
{
    let n = payload.len() as u32;
    let whole = spec_frame(payload) + rest;
    lemma_header_round_trip(n);
    assert(spec_header_value(whole[0], whole[1], whole[2], whole[3]) == payload.len());
    assert(whole.subrange(4, 4 + payload.len() as int) =~= payload);
}

/// Computes [`spec_len_header`].
fn len_header(n: u32) -> (r: [u8; 4])
    ensures
        r@ == spec_len_header(n),
{
    let r = [
        (n / 0x100_0000) as u8,
        ((n / 0x1_0000) % 0x100) as u8,
        ((n / 0x100) % 0x100) as u8,
        (n % 0x100) as u8,
    ];
    assert(r@ =~= spec_len_header(n));
    r
}

/// Wraps a payload as one frame for the wire; only a payload too long for a
/// four-byte length cannot be framed.
pub fn frame_payload(payload: &Vec<u8>) -> (r: Option<Vec<u8>>)
    ensures
        match r {
            Some(v) => v@ == spec_frame(payload@),
            None => payload@.len() >= 0x1_0000_0000,
        },
{
    if payload.len() as u64 >= 0x1_0000_0000u64 {
        None
    } else {
        let header = len_header(payload.len() as u32);
        let mut out: Vec<u8> = Vec::new();
        out.push(header[0]);
        out.push(header[1]);
        out.push(header[2]);
        out.push(header[3]);
        let mut body = payload.clone();
        out.append(&mut body);
        assert(out@ =~= spec_frame(payload@));
        Some(out)
    }
}

/// The bytes a connection has read but not yet cut into frames.
pub struct FrameBuffer {
    pending: Vec<u8>,
}

impl FrameBuffer {
    /// The buffered bytes.
    pub closed spec fn view(&self) -> Seq<u8> {
        self.pending@
    }

    /// A fresh connection has nothing buffered.
    pub fn new() -> (b: Self)
        ensures
            b@ == Seq::<u8>::empty(),
    {
        FrameBuffer { pending: Vec::new() }
    }

    /// Takes in whatever one read delivered, cut wherever the stream cut it.
    pub fn push_chunk(&mut self, chunk: &[u8])
        ensures
            final(self)@ == old(self)@ + chunk@,
    {
        let mut tail = slice_to_vec(chunk);
        self.pending.append(&mut tail);
    }

    /// Hands out the next whole payload, if a whole frame has arrived, and
    /// consumes it; otherwise leaves the buffer as it is.
    pub fn next_frame(&mut self) -> (r: Option<Vec<u8>>)
        ensures
            match spec_take_frame(old(self)@) {
                Some((payload, used)) => {
                    &&& r matches Some(v) && v@ == payload
                    &&& final(self)@ == old(self)@.skip(used)
                },
                None => r is None && final(self)@ == old(self)@,
            },
    {
        if self.pending.len() < 4 {
            return None;
        }
        let b0 = self.pending[0];
        let b1 = self.pending[1];
        let b2 = self.pending[2];
        let b3 = self.pending[3];
        let n: usize = 0x100_0000 * (b0 as usize) + 0x1_0000 * (b1 as usize) + 0x100 * (b2 as usize)
            + (b3 as usize);
        if self.pending.len() - 4 < n {
            return None;
        }
        let payload = slice_to_vec(slice_subrange(self.pending.as_slice(), 4, 4 + n));
        let remainder = slice_to_vec(
            slice_subrange(self.pending.as_slice(), 4 + n, self.pending.len()),
        );
        assert(payload@ =~= self.pending@.subrange(4, 4 + n as int));
        assert(remainder@ =~= self.pending@.skip(4 + n as int));
        self.pending = remainder;
        Some(payload)
    }
}

} // verus!
