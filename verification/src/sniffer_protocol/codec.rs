//! Framing of a TCP byte stream into packets: each packet starts with its
//! 16-bit little-endian length, which counts the two length bytes.

use vstd::prelude::*;
use bytes::BytesMut;
use crate::byte_buffer::{buffer_advance, buffer_byte, buffer_bytes, buffer_len, buffer_split_to_vec};
use crate::wire::{le16, u16_from_le};

verus! {

/// Why a frame header is refused.
#[derive(Debug, Clone, Copy, PartialEq, Eq)]
pub enum FrameError {
    /// The declared length is below the header's own two bytes.
    TooSmall(usize),
    /// The declared length exceeds the configured maximum.
    TooLarge { actual: usize, max: usize },
}

/// Splits frames off a byte stream.
pub struct L2FrameCodec {
    max_frame_size: usize,
}

/// Outcome of one decode on a buffer: the result and what stays buffered.
pub open spec fn decode_step(max: usize, buf: Seq<u8>) -> (Result<Option<Seq<u8>>, FrameError>, Seq<u8>) {
    if buf.len() < 2 {
        (Ok(None), buf)
    } else {
        let length = le16(buf, 0);
        if length < 2 {
            (Err(FrameError::TooSmall(length as usize)), buf)
        } else if length > max {
            (Err(FrameError::TooLarge { actual: length as usize, max }), buf)
        } else if buf.len() < length {
            (Ok(None), buf)
        } else {
            (Ok(Some(buf.subrange(2, length))), buf.skip(length))
        }
    }
}

/// The frame that carries `payload`: its length plus two, little-endian,
/// then the payload.
pub open spec fn frame_of(payload: Seq<u8>) -> Seq<u8> {
    let n = payload.len() + 2;
    seq![(n % 256) as u8, (n / 256) as u8] + payload
}

impl L2FrameCodec {
    /// The largest frame this codec accepts.
    pub closed spec fn max_size(&self) -> usize {
        self.max_frame_size
    }

    /// A codec that accepts frames up to `max_frame_size` bytes.
    pub fn new(max_frame_size: usize) -> (c: Self)
        ensures
            c.max_size() == max_frame_size,
    {
        L2FrameCodec { max_frame_size }
    }

    /// Takes the next complete frame off the front of `src` and returns its
    /// payload; `None` when more bytes are needed. A refused header leaves
    /// `src` as it is.
    pub fn decode(&mut self, src: &mut BytesMut) -> (r: Result<Option<Vec<u8>>, FrameError>)
        ensures
            final(self).max_size() == old(self).max_size(),
            ({
                let st = decode_step(old(self).max_size(), buffer_bytes(*old(src)));
                &&& buffer_bytes(*final(src)) == st.1
                &&& match r {
                    Ok(Some(p)) => st.0 == Ok::<Option<Seq<u8>>, FrameError>(Some(p@)),
                    Ok(None) => st.0 == Ok::<Option<Seq<u8>>, FrameError>(None),
                    Err(e) => st.0 == Err::<Option<Seq<u8>>, FrameError>(e),
                }
            }),
    {
        let n = buffer_len(src);
        if n < 2 {
            return Ok(None);
        }
        let length = u16_from_le(buffer_byte(src, 0), buffer_byte(src, 1)) as usize;
        if length < 2 {
            return Err(FrameError::TooSmall(length));
        }
        if length > self.max_frame_size {
            return Err(FrameError::TooLarge { actual: length, max: self.max_frame_size });
        }
        if n < length {
            return Ok(None);
        }
        let ghost before = buffer_bytes(*src);
        buffer_advance(src, 2);
        let payload = buffer_split_to_vec(src, length - 2);
        assert(payload@ =~= before.subrange(2, length as int));
        assert(buffer_bytes(*src) =~= before.skip(length as int));
        Ok(Some(payload))
    }
}

impl Default for L2FrameCodec {
    /// A codec for frames of up to 65535 bytes.
    fn default() -> (c: Self)
        ensures
            c.max_size() == 65535,
    {
        Self::new(65535)
    }
}

/// A complete frame at the front of the stream is returned whole, and what
/// followed it stays buffered, when its length is within the limit.
pub proof fn lemma_frame_roundtrip(max: usize, payload: Seq<u8>, rest: Seq<u8>)
    requires
        payload.len() + 2 <= max,
        payload.len() + 2 <= 65535,
    ensures
        decode_step(max, frame_of(payload) + rest) == (
            Ok::<Option<Seq<u8>>, FrameError>(Some(payload)),
            rest,
        ),
{
    let f = frame_of(payload) + rest;
    let n = payload.len() + 2;
    assert(le16(f, 0) == n);
    assert(f.subrange(2, n as int) =~= payload);
    assert(f.skip(n as int) =~= rest);
}

/// Bytes short of a whole frame are never consumed.
pub proof fn lemma_partial_frame_waits(max: usize, payload: Seq<u8>, k: int)
    requires
        payload.len() + 2 <= max,
        payload.len() + 2 <= 65535,
        0 <= k < payload.len() + 2,
    ensures
        decode_step(max, frame_of(payload).take(k)).0 == Ok::<Option<Seq<u8>>, FrameError>(None),
        decode_step(max, frame_of(payload).take(k)).1 == frame_of(payload).take(k),
{
    let f = frame_of(payload).take(k);
    if k >= 2 {
        assert(le16(f, 0) == payload.len() + 2);
    }
}

} // verus!
