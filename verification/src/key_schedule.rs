//! The rolling 16-byte key shared by the game stream ciphers: bytes 8 to 11
//! hold a little-endian counter that grows by each decrypted payload's size.

use vstd::prelude::*;
use vstd::array::ArrayAdditionalExecFns;
use crate::wire::{le32, u32_from_le};

verus! {

/// Byte `j` (0 to 3) of the little-endian encoding of `v`.
pub open spec fn le_byte(v: u32, j: int) -> u8 {
    if j == 0 {
        (v % 256) as u8
    } else if j == 1 {
        ((v / 256) % 256) as u8
    } else if j == 2 {
        ((v / 65536) % 256) as u8
    } else {
        (v / 16777216) as u8
    }
}

/// The key after a payload of `size` bytes: the counter in bytes 8 to 11
/// advanced by `size`, wrapping; the other bytes unchanged.
pub open spec fn advanced_key(key: Seq<u8>, size: u32) -> Seq<u8> {
    let v = ((le32(key, 8) + size) % 0x1_0000_0000) as u32;
    Seq::new(16, |i: int| if 8 <= i < 12 { le_byte(v, i - 8) } else { key[i] })
}

/// Advances the counter of `key` by `size`.
pub fn advance_counter(key: &mut [u8; 16], size: u32)
    ensures
        final(key)@ == advanced_key(old(key)@, size),
{
    let old_v = u32_from_le(key[8], key[9], key[10], key[11]);
    let v = old_v.wrapping_add(size);
    key.set(8, (v % 256) as u8);
    key.set(9, ((v / 256) % 256) as u8);
    key.set(10, ((v / 65536) % 256) as u8);
    key.set(11, (v / 16777216) as u8);
    assert(key@ =~= advanced_key(old(key)@, size));
}


/// The four little-endian bytes of a value read back as that value.
pub proof fn lemma_le_bytes_roundtrip(v: u32)
    ensures
        le_byte(v, 0) + le_byte(v, 1) * 256 + (le_byte(v, 2) + le_byte(v, 3) * 256) * 65536 == v,
{
    assert(v / 16777216 < 256) by (bit_vector);
    assert((v % 256) + ((v / 256) % 256) * 256 + (((v / 65536) % 256) + (v / 16777216) * 256) * 65536 == v) by (bit_vector);
}

/// Advancing the key by one size and then another is advancing it by their
/// sum, wrapping: two payloads decrypted in turn move the counter by their
/// total length.
pub proof fn lemma_advance_twice(key: Seq<u8>, a: u32, b: u32)
    requires
        key.len() == 16,
    ensures
        advanced_key(advanced_key(key, a), b) == advanced_key(key, ((a + b) % 0x1_0000_0000) as u32),
{
    let v1 = ((le32(key, 8) + a) % 0x1_0000_0000) as u32;
    let k1 = advanced_key(key, a);
    lemma_le_bytes_roundtrip(v1);
    assert(le32(k1, 8) == v1);
    let m: int = 0x1_0000_0000;
    let x: int = le32(key, 8);
    assert(0 <= x < m) by {
        assert(0 <= key[8] < 256 && 0 <= key[9] < 256 && 0 <= key[10] < 256 && 0 <= key[11] < 256);
    }
    assert(((x + a) % m + b) % m == (x + ((a + b) % m)) % m) by (nonlinear_arith)
        requires 0 <= x < m, 0 <= a < m, 0 <= b < m, m == 0x1_0000_0000;
    assert(advanced_key(advanced_key(key, a), b) =~= advanced_key(key, ((a + b) % 0x1_0000_0000) as u32));
}

} // verus!
