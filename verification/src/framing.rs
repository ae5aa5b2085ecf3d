//! Framing of zone messages on a stream: a big-endian 32-bit length, then
//! that many bytes of encoded message.
use vstd::prelude::*;

use crate::bytes::{be32, be32_value_at, lemma_be32_round_trip, push_all, push_u32_be};

verus! {

/// Largest message body a frame may carry: one mebibyte.
pub const MAX_FRAME_LEN: u32 = 1048576;

/// Whether a frame may announce a body of `len` bytes.
pub open spec fn frame_length_ok(len: u32) -> bool {
    0 < len && len <= MAX_FRAME_LEN
}

/// The body length announced by a frame header, when it is acceptable:
/// neither empty nor over the limit.
pub fn frame_body_length(len: u32) -> (n: Option<usize>)
    ensures
        n == if frame_length_ok(len) {
            Some(len as usize)
        } else {
            None
        },
{
    if len == 0 || len > MAX_FRAME_LEN {
        None
    } else {
        Some(len as usize)
    }
}

/// The frame that carries `body`.
pub open spec fn frame_of(body: Seq<u8>) -> Seq<u8> {
    be32(body.len() as u32) + body
}

/// Frames an encoded message.
pub fn encode_frame(body: &[u8]) -> (frame: Vec<u8>)
    requires
        body@.len() <= u32::MAX,
    ensures
        frame@ == frame_of(body@),
{
    let mut frame: Vec<u8> = Vec::new();
    push_u32_be(&mut frame, body.len() as u32);
    push_all(&mut frame, body);
    frame
}

/// What the start of a byte stream holds.
#[derive(Debug, Clone, PartialEq, Eq)]
pub enum FrameRead {
    /// Not yet a whole frame.
    Incomplete,
    /// A header announcing an unacceptable length.
    InvalidLength(u32),
    /// A whole frame: its body, and how many bytes of the stream it took.
    Frame { body: Vec<u8>, consumed: usize },
}

/// The model of what the start of `buf` holds.
pub open spec fn read_frame_spec(buf: Seq<u8>) -> (u8, u32, Seq<u8>) {
    if buf.len() < 4 {
        (0, 0, Seq::empty())
    } else {
        let len = be32_value_at(buf, 0);
        if !frame_length_ok(len) {
            (1, len, Seq::empty())
        } else if buf.len() < 4 + len {
            (0, 0, Seq::empty())
        } else {
            (2, len, buf.subrange(4, 4 + len))
        }
    }
}

/// A `FrameRead` in the terms of `read_frame_spec`.
pub open spec fn frame_read_view(r: FrameRead) -> (u8, u32, Seq<u8>) {
    match r {
        FrameRead::Incomplete => (0, 0, Seq::empty()),
        FrameRead::InvalidLength(len) => (1, len, Seq::empty()),
        FrameRead::Frame { body, consumed } => (2, (consumed - 4) as u32, body@),
    }
}

/// Reads the frame at the start of `buf`: incomplete until the header and
/// the whole body are there; an empty or oversized body is refused as soon
/// as the header is read.
pub fn read_frame(buf: &[u8]) -> (r: FrameRead)
    ensures
        frame_read_view(r) == read_frame_spec(buf@),
        r matches FrameRead::Frame { consumed, .. } ==> 4 <= consumed <= buf@.len(),
{
    if buf.len() < 4 {
        return FrameRead::Incomplete;
    }
    let len: u32 = (buf[0] as u32) * 0x1000000 + (buf[1] as u32) * 0x10000 + (buf[2] as u32) * 0x100
        + (buf[3] as u32);
    if len == 0 || len > MAX_FRAME_LEN {
        return FrameRead::InvalidLength(len);
    }
    let n = len as usize;
    if buf.len() - 4 < n {
        return FrameRead::Incomplete;
    }
    let mut body: Vec<u8> = Vec::new();
    let mut i: usize = 4;
    while i < 4 + n
        invariant
            4 <= i <= 4 + n,
            4 + n <= buf@.len(),
            n <= MAX_FRAME_LEN,
            body@ == buf@.subrange(4, i as int),
        decreases 4 + n - i,
    {
        body.push(buf[i]);
        i = i + 1;
        proof {
            assert(body@ =~= buf@.subrange(4, i as int));
        }
    }
    FrameRead::Frame { body, consumed: 4 + n }
}

/// Law: reading the frame of an acceptable body gives the body back, and
/// consumes exactly the frame, whatever follows it in the stream.
pub proof fn law_frame_round_trip(body: Seq<u8>, rest: Seq<u8>)
    requires
        0 < body.len() <= MAX_FRAME_LEN,
    ensures
        read_frame_spec(frame_of(body) + rest) == (2u8, body.len() as u32, body),
{
    let f = frame_of(body) + rest;
    lemma_be32_round_trip(body.len() as u32);
    assert(be32_value_at(f, 0) == be32_value_at(be32(body.len() as u32), 0));
    assert(f.subrange(4, 4 + body.len() as int) =~= body);
}

} // verus!
