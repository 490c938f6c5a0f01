//! Game stream decryption with a rolling key, by 32-bit words.

use vstd::prelude::*;
use vstd::array::ArrayAdditionalExecFns;
use vstd::slice::SliceAdditionalExecFns;
use crate::wire::{le32, u32_from_le};
use crate::key_schedule::{advance_counter, advanced_key, le_byte, lemma_le_bytes_roundtrip};
use crate::block_cipher::{blowfish_key_len_ok, blowfish_le_decrypt, decrypt_block_in_place};

verus! {

/// Decrypts the game stream in place with a rolling key.
#[derive(Clone)]
pub struct L2Cryptor {
    key: [u8; 16],
    initialized: bool,
}

/// The key after installing `seed`: its first bytes (up to 16) over the
/// previous key.
pub open spec fn key_with_seed(key: Seq<u8>, seed: Seq<u8>) -> Seq<u8> {
    Seq::new(16, |i: int| if i < seed.len() { seed[i] } else { key[i] })
}

/// The 32-bit word `k` of a decrypted payload: the cipher word, the key word
/// at `4k` modulo 16, and the previous cipher word (0 for the first),
/// combined by exclusive or.
pub open spec fn plain_word(cipher: Seq<u8>, key: Seq<u8>, k: int) -> u32 {
    let prev: u32 = if k == 0 { 0 } else { le32(cipher, 4 * k - 4) as u32 };
    (le32(cipher, 4 * k) as u32) ^ (le32(key, (4 * k) % 16) as u32) ^ prev
}

/// Byte `i` of a decrypted payload: bytes of whole words are decrypted,
/// bytes of a trailing partial word are kept.
pub open spec fn plain_at(cipher: Seq<u8>, key: Seq<u8>, i: int) -> u8 {
    if i < (cipher.len() / 4) * 4 {
        le_byte(plain_word(cipher, key, i / 4), i % 4)
    } else {
        cipher[i]
    }
}

/// Word `w` of a payload encrypted the way the server does it: the plain
/// word, the key word at `4w` modulo 16 and the previous encrypted word (0
/// for the first), combined by exclusive or.
pub open spec fn cipher_word(plain: Seq<u8>, key: Seq<u8>, w: int) -> u32
    decreases w,
{
    let prev: u32 = if w <= 0 { 0 } else { cipher_word(plain, key, w - 1) };
    (le32(plain, 4 * w) as u32) ^ (le32(key, (4 * w) % 16) as u32) ^ prev
}

/// A payload encrypted the way the server does it: whole words encrypted,
/// the bytes of a trailing partial word kept.
pub open spec fn encrypted(plain: Seq<u8>, key: Seq<u8>) -> Seq<u8> {
    Seq::new(plain.len(), |i: int| if i < (plain.len() / 4) * 4 {
        le_byte(cipher_word(plain, key, i / 4), i % 4)
    } else {
        plain[i]
    })
}

/// Four bytes read as a word and written back are the same bytes.
proof fn lemma_word_bytes(a: u8, b: u8, c: u8, d: u8)
    ensures
        le_byte((a + b * 256 + (c + d * 256) * 65536) as u32, 0) == a,
        le_byte((a + b * 256 + (c + d * 256) * 65536) as u32, 1) == b,
        le_byte((a + b * 256 + (c + d * 256) * 65536) as u32, 2) == c,
        le_byte((a + b * 256 + (c + d * 256) * 65536) as u32, 3) == d,
{
    let v: u32 = (a + b * 256 + (c + d * 256) * 65536) as u32;
    assert(v == (a as u32) + (b as u32) * 256 + (c as u32) * 65536 + (d as u32) * 16777216) by (nonlinear_arith)
        requires v == (a + b * 256 + (c + d * 256) * 65536) as u32, a < 256, b < 256, c < 256, d < 256;
    assert((v % 256) == a as u32 && (v / 256) % 256 == b as u32 && (v / 65536) % 256 == c as u32 && v / 16777216 == d as u32) by (bit_vector)
        requires v == (a as u32) + (b as u32) * 256 + (c as u32) * 65536 + (d as u32) * 16777216;
}

/// Decryption undoes the server's encryption under the same key: decrypting
/// an encrypted payload gives the plain bytes back.
pub proof fn lemma_decrypt_undoes_encrypt(plain: Seq<u8>, key: Seq<u8>)
    requires
        key.len() == 16,
    ensures
        Seq::new(plain.len(), |i: int| plain_at(encrypted(plain, key), key, i)) == plain,
{
    let c = encrypted(plain, key);
    let whole = (plain.len() / 4) * 4;
    assert forall|w: int| 0 <= w && 4 * w + 4 <= plain.len() implies #[trigger] le32(c, 4 * w) == cipher_word(plain, key, w) by {
        assert(4 * w + 4 <= whole);
        assert((4 * w) / 4 == w && (4 * w + 1) / 4 == w && (4 * w + 2) / 4 == w && (4 * w + 3) / 4 == w);
        assert((4 * w) % 4 == 0 && (4 * w + 1) % 4 == 1 && (4 * w + 2) % 4 == 2 && (4 * w + 3) % 4 == 3);
        lemma_le_bytes_roundtrip(cipher_word(plain, key, w));
    }
    assert forall|i: int| 0 <= i < plain.len() implies plain_at(c, key, i) == plain[i] by {
        if i < whole {
            let w = i / 4;
            assert(4 * w + 4 <= plain.len());
            assert(le32(c, 4 * w) == cipher_word(plain, key, w));
            if w > 0 {
                assert(le32(c, 4 * (w - 1)) == cipher_word(plain, key, w - 1));
                assert(4 * w - 4 == 4 * (w - 1));
            }
            let p = le32(plain, 4 * w) as u32;
            let k = le32(key, (4 * w) % 16) as u32;
            let q: u32 = if w == 0 { 0 } else { cipher_word(plain, key, w - 1) };
            assert(cipher_word(plain, key, w) == p ^ k ^ q);
            assert((p ^ k ^ q) ^ k ^ q == p) by (bit_vector);
            assert(plain_word(c, key, w) == p);
            lemma_word_bytes(plain[4 * w], plain[4 * w + 1], plain[4 * w + 2], plain[4 * w + 3]);
            assert(i == 4 * w + i % 4);
        }
    }
    assert(Seq::new(plain.len(), |i: int| plain_at(c, key, i)) =~= plain);
}

/// Installing a seed writes its first bytes, up to 16, over the key and
/// keeps the rest of the key: with a 16-byte seed the key becomes the seed.
pub proof fn lemma_seed_installs_prefix(key: Seq<u8>, seed: Seq<u8>)
    requires
        key.len() == 16,
    ensures
        key_with_seed(key, seed).len() == 16,
        forall|i: int| 0 <= i < 16 && i < seed.len() ==> key_with_seed(key, seed)[i] == seed[i],
        forall|i: int| seed.len() <= i < 16 ==> key_with_seed(key, seed)[i] == key[i],
        seed.len() == 16 ==> key_with_seed(key, seed) == seed,
{
    if seed.len() == 16 {
        assert(key_with_seed(key, seed) =~= seed);
    }
}

/// After a 16-byte seed is installed, over whatever key, decryption undoes
/// the server's encryption under that seed, for a payload of any length.
pub proof fn lemma_seeded_decrypt_undoes_encrypt(key: Seq<u8>, seed: Seq<u8>, plain: Seq<u8>)
    requires
        key.len() == 16,
        seed.len() == 16,
    ensures
        Seq::new(plain.len(), |i: int| plain_at(encrypted(plain, seed), key_with_seed(key, seed), i)) == plain,
{
    lemma_seed_installs_prefix(key, seed);
    lemma_decrypt_undoes_encrypt(plain, seed);
}

impl L2Cryptor {
    /// The current key.
    pub closed spec fn key(&self) -> Seq<u8> {
        self.key@
    }

    /// Whether a key has been installed.
    pub closed spec fn has_key(&self) -> bool {
        self.initialized
    }

    /// A cryptor with no key yet.
    pub fn new() -> (c: Self)
        ensures
            !c.has_key(),
            c.key() == Seq::new(16, |i: int| 0u8),
    {
        let c = L2Cryptor { key: [0u8; 16], initialized: false };
        assert(c.key@ =~= Seq::new(16, |i: int| 0u8));
        c
    }

    /// Installs the key seed: its first bytes, up to 16, replace the start of
    /// the key; the cryptor then counts as keyed.
    pub fn set_key(&mut self, initial_key: &[u8])
        ensures
            final(self).has_key(),
            final(self).key() == key_with_seed(old(self).key(), initial_key@),
    {
        let len = if initial_key.len() < 16 { initial_key.len() } else { 16 };
        let mut i: usize = 0;
        while i < len
            invariant
                i <= len,
                len <= 16,
                len == (if initial_key@.len() < 16 { initial_key@.len() } else { 16 }),
                forall|j: int| 0 <= j < i ==> self.key@[j] == initial_key@[j],
                forall|j: int| i <= j < 16 ==> self.key@[j] == old(self).key@[j],
            decreases len - i,
        {
            self.key.set(i, initial_key[i]);
            i = i + 1;
        }
        self.initialized = true;
        assert(self.key@ =~= key_with_seed(old(self).key@, initial_key@));
    }

    /// Whether a key has been installed.
    pub fn is_initialized(&self) -> (b: bool)
        ensures
            b == self.has_key(),
    {
        self.initialized
    }

    /// Decrypts `raw_data` in place, word by word, and advances the key by
    /// its length; with no key installed, nothing changes.
    pub fn decrypt(&mut self, raw_data: &mut [u8]) -> (r: Result<(), String>)
        ensures
            r is Ok,
            final(self).has_key() == old(self).has_key(),
            !old(self).has_key() ==> final(raw_data)@ == old(raw_data)@ && final(self).key() == old(self).key(),
            old(self).has_key() ==> final(raw_data)@ == Seq::new(
                old(raw_data)@.len(),
                |i: int| plain_at(old(raw_data)@, old(self).key(), i),
            ),
            old(self).has_key() ==> final(self).key() == advanced_key(
                old(self).key(),
                old(raw_data)@.len() as u32,
            ),
    {
        if !self.initialized {
            return Ok(());
        }
        let ghost cipher = raw_data@;
        let n = raw_data.len();
        let mut temp: u32 = 0;
        let mut off: usize = 0;
        while n - off >= 4
            invariant
                n == raw_data@.len(),
                cipher.len() == n,
                off <= n,
                off % 4 == 0,
                off > 0 ==> temp == le32(cipher, off - 4),
                off == 0 ==> temp == 0,
                forall|j: int| off <= j < n ==> raw_data@[j] == cipher[j],
                forall|j: int| 0 <= j < off ==> raw_data@[j] == plain_at(cipher, self.key@, j),
            decreases n - off,
        {
            let current = u32_from_le(raw_data[off], raw_data[off + 1], raw_data[off + 2], raw_data[off + 3]);
            let ko = off % 16;
            let key_part = u32_from_le(self.key[ko], self.key[ko + 1], self.key[ko + 2], self.key[ko + 3]);
            let decrypted = current ^ key_part ^ temp;
            assert(decrypted == plain_word(cipher, self.key@, (off / 4) as int));
            raw_data.set(off, (decrypted % 256) as u8);
            raw_data.set(off + 1, ((decrypted / 256) % 256) as u8);
            raw_data.set(off + 2, ((decrypted / 65536) % 256) as u8);
            raw_data.set(off + 3, (decrypted / 16777216) as u8);
            temp = current;
            off = off + 4;
        }
        assert(raw_data@ =~= Seq::new(n as nat, |i: int| plain_at(cipher, self.key@, i)));
        self.advance_key(n as u32);
        Ok(())
    }

    /// Advances the key counter by `size`.
    fn advance_key(&mut self, size: u32)
        ensures
            final(self).key() == advanced_key(old(self).key(), size),
            final(self).has_key() == old(self).has_key(),
    {
        advance_counter(&mut self.key, size);
    }

    /// Decrypts one Blowfish block under `key` (used by the login handshake);
    /// a key shorter than 4 or longer than 56 bytes is refused.
    pub fn decrypt_blowfish_block(&self, block: &mut [u8; 8], key: &[u8]) -> (r: Result<(), String>)
        ensures
            r is Ok <==> blowfish_key_len_ok(key@.len() as int),
            r is Ok ==> final(block)@ == blowfish_le_decrypt(key@, old(block)@),
            r is Err ==> final(block)@ == old(block)@,
    {
        decrypt_block_in_place(block, key)
    }
}

impl Default for L2Cryptor {
    /// A cryptor with no key yet.
    fn default() -> (c: Self)
        ensures
            !c.has_key(),
    {
        Self::new()
    }
}

} // verus!
