//! The growable byte buffer of the `bytes` crate, as the framing code uses it.

use vstd::prelude::*;
use bytes::{Buf, BytesMut};

verus! {

/// `bytes::BytesMut`, held opaquely; its contents are named by
/// [`buffer_bytes`].
#[verifier::external_type_specification]
#[verifier::external_body]
pub struct ExBytesMut(BytesMut);

/// The bytes a `BytesMut` holds, front first (what `Deref<Target = [u8]>`
/// exposes).
pub uninterp spec fn buffer_bytes(b: BytesMut) -> Seq<u8>;

/// `BytesMut::with_capacity`: claimed to return a buffer holding no bytes
/// (the capacity reserved is not stated).
#[verifier::external_body]
pub(crate) fn buffer_with_capacity(capacity: usize) -> (b: BytesMut)
    ensures
        buffer_bytes(b) == Seq::<u8>::empty(),
{
    BytesMut::with_capacity(capacity)
}

/// `BytesMut::len`: claimed to be the number of bytes held.
#[verifier::external_body]
pub(crate) fn buffer_len(b: &BytesMut) -> (n: usize)
    ensures
        n == buffer_bytes(*b).len(),
{
    b.len()
}

/// Indexing a `BytesMut` through its slice: claimed to be the byte at `i`;
/// an index past the end panics, so it is required in range.
#[verifier::external_body]
pub(crate) fn buffer_byte(b: &BytesMut, i: usize) -> (v: u8)
    requires
        i < buffer_bytes(*b).len(),
    ensures
        v == buffer_bytes(*b)[i as int],
{
    b[i]
}

/// `Buf::advance` on a `BytesMut`: claimed to drop the first `cnt` bytes and
/// keep the rest; advancing past the end panics, so `cnt` is required in
/// range.
#[verifier::external_body]
pub(crate) fn buffer_advance(b: &mut BytesMut, cnt: usize)
    requires
        cnt <= buffer_bytes(*old(b)).len(),
    ensures
        buffer_bytes(*final(b)) == buffer_bytes(*old(b)).skip(cnt as int),
{
    b.advance(cnt)
}

/// `BytesMut::split_to` then `to_vec` of the front part: claimed to return the
/// first `at` bytes and leave the rest; splitting past the end panics, so
/// `at` is required in range.
#[verifier::external_body]
pub(crate) fn buffer_split_to_vec(b: &mut BytesMut, at: usize) -> (front: Vec<u8>)
    requires
        at <= buffer_bytes(*old(b)).len(),
    ensures
        front@ == buffer_bytes(*old(b)).take(at as int),
        buffer_bytes(*final(b)) == buffer_bytes(*old(b)).skip(at as int),
{
    b.split_to(at).to_vec()
}

/// `BytesMut::extend_from_slice`: claimed to append the bytes of `s`; growing
/// beyond `isize::MAX` bytes panics, so the total is required below it.
#[verifier::external_body]
pub(crate) fn buffer_extend(b: &mut BytesMut, s: &[u8])
    requires
        buffer_bytes(*old(b)).len() + s@.len() <= isize::MAX,
    ensures
        buffer_bytes(*final(b)) == buffer_bytes(*old(b)) + s@,
{
    b.extend_from_slice(s)
}

} // verus!
