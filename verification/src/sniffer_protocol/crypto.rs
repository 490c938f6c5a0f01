//! Game stream decryption with a rolling key, byte by byte.

use vstd::prelude::*;
use vstd::array::ArrayAdditionalExecFns;
use vstd::slice::SliceAdditionalExecFns;
use crate::key_schedule::{advance_counter, advanced_key};
use crate::block_cipher::{blowfish_key_len_ok, blowfish_le_decrypt, decrypt_block_in_place};

verus! {

/// Decrypts the game stream in place with a rolling key.
#[derive(Clone)]
pub struct L2Cryptor {
    key: [u8; 16],
    initialized: bool,
}

/// The fixed second half of the key.
pub open spec fn key_tail() -> Seq<u8> {
    seq![0xc8u8, 0x27u8, 0x93u8, 0x01u8, 0xa1u8, 0x6cu8, 0x31u8, 0x97u8]
}

/// The key installed from a seed: a 16-byte seed whole; otherwise the first
/// 8 bytes followed by the fixed tail when the seed has at least 8 bytes; no
/// key when it is shorter.
pub open spec fn key_from_seed(seed: Seq<u8>) -> Option<Seq<u8>> {
    if seed.len() == 16 {
        Some(seed)
    } else if seed.len() >= 8 {
        Some(seed.take(8) + key_tail())
    } else {
        None
    }
}

/// Byte `i` of a decrypted payload: the cipher byte, the key byte at `i`
/// modulo 16, and the previous cipher byte (0 for the first), combined by
/// exclusive or.
pub open spec fn plain_byte(cipher: Seq<u8>, key: Seq<u8>, i: int) -> u8 {
    let prev: u8 = if i == 0 { 0 } else { cipher[i - 1] };
    cipher[i] ^ key[i % 16] ^ prev
}

/// Byte `i` of a payload encrypted the way the server does it: the plain
/// byte, the key byte at `i` modulo 16 and the previous encrypted byte (0
/// for the first), combined by exclusive or.
pub open spec fn cipher_byte(plain: Seq<u8>, key: Seq<u8>, i: int) -> u8
    decreases i,
{
    let prev: u8 = if i <= 0 { 0 } else { cipher_byte(plain, key, i - 1) };
    plain[i] ^ key[i % 16] ^ prev
}

/// A payload encrypted the way the server does it.
pub open spec fn encrypted(plain: Seq<u8>, key: Seq<u8>) -> Seq<u8> {
    Seq::new(plain.len(), |i: int| cipher_byte(plain, key, i))
}

/// Decryption undoes the server's encryption under the same key: decrypting
/// an encrypted payload gives the plain bytes back.
pub proof fn lemma_decrypt_undoes_encrypt(plain: Seq<u8>, key: Seq<u8>)
    ensures
        Seq::new(plain.len(), |i: int| plain_byte(encrypted(plain, key), key, i)) == plain,
{
    let c = encrypted(plain, key);
    assert forall|i: int| 0 <= i < plain.len() implies plain_byte(c, key, i) == plain[i] by {
        let p = plain[i];
        let k = key[i % 16];
        let q: u8 = if i == 0 { 0 } else { c[i - 1] };
        assert(c[i] == p ^ k ^ q);
        assert((p ^ k ^ q) ^ k ^ q == p) by (bit_vector);
    }
    assert(Seq::new(plain.len(), |i: int| plain_byte(c, key, i)) =~= plain);
}

/// Installing a seed: a 16-byte seed becomes the key whole; any other seed
/// of at least 8 bytes gives its first 8 bytes, byte for byte, followed by
/// the fixed tail; a shorter one gives no key.
pub proof fn lemma_seed_key(seed: Seq<u8>)
    ensures
        seed.len() < 8 <==> key_from_seed(seed) is None,
        seed.len() == 16 ==> key_from_seed(seed) == Some(seed),
        seed.len() >= 8 && seed.len() != 16 ==> {
            let k = key_from_seed(seed)->0;
            &&& k.len() == 16
            &&& forall|i: int| 0 <= i < 8 ==> k[i] == seed[i]
            &&& k[8] == 0xc8 && k[9] == 0x27 && k[10] == 0x93 && k[11] == 0x01
            &&& k[12] == 0xa1 && k[13] == 0x6c && k[14] == 0x31 && k[15] == 0x97
        },
{
}

/// After a 16-byte seed is installed, decryption undoes the server's
/// encryption under that seed, for a payload of any length.
pub proof fn lemma_seeded_decrypt_undoes_encrypt(seed: Seq<u8>, plain: Seq<u8>)
    requires
        seed.len() == 16,
    ensures
        key_from_seed(seed) == Some(seed),
        Seq::new(plain.len(), |i: int| plain_byte(encrypted(plain, seed), key_from_seed(seed)->0, i)) == plain,
{
    lemma_decrypt_undoes_encrypt(plain, seed);
}

impl L2Cryptor {
    /// The current key.
    pub closed spec fn key(&self) -> Seq<u8> {
        self.key@
    }

    /// Whether a key has been installed.
    pub closed spec fn has_key(&self) -> bool {
        self.initialized
    }

    /// A cryptor with no key yet.
    pub fn new() -> (c: Self)
        ensures
            !c.has_key(),
            c.key() == Seq::new(16, |i: int| 0u8),
    {
        let c = L2Cryptor { key: [0u8; 16], initialized: false };
        assert(c.key@ =~= Seq::new(16, |i: int| 0u8));
        c
    }

    /// Installs the key from the 8- or 16-byte seed sent at the start of a
    /// session; a seed shorter than 8 bytes changes nothing.
    pub fn set_key(&mut self, initial_key: &[u8])
        ensures
            match key_from_seed(initial_key@) {
                Some(k) => final(self).has_key() && final(self).key() == k,
                None => final(self).has_key() == old(self).has_key() && final(self).key() == old(self).key(),
            },
    {
        if initial_key.len() == 16 {
            let mut i: usize = 0;
            while i < 16
                invariant
                    i <= 16,
                    initial_key@.len() == 16,
                    forall|j: int| 0 <= j < i ==> self.key@[j] == initial_key@[j],
                decreases 16 - i,
            {
                self.key.set(i, initial_key[i]);
                i = i + 1;
            }
            self.initialized = true;
            assert(self.key@ =~= initial_key@);
        } else if initial_key.len() >= 8 {
            let mut i: usize = 0;
            while i < 8
                invariant
                    i <= 8,
                    initial_key@.len() >= 8,
                    forall|j: int| 0 <= j < i ==> self.key@[j] == initial_key@[j],
                decreases 8 - i,
            {
                self.key.set(i, initial_key[i]);
                i = i + 1;
            }
            self.key.set(8, 0xc8);
            self.key.set(9, 0x27);
            self.key.set(10, 0x93);
            self.key.set(11, 0x01);
            self.key.set(12, 0xa1);
            self.key.set(13, 0x6c);
            self.key.set(14, 0x31);
            self.key.set(15, 0x97);
            self.initialized = true;
            assert(self.key@ =~= initial_key@.take(8) + key_tail());
        }
    }

    /// Whether a key has been installed.
    pub fn is_initialized(&self) -> (b: bool)
        ensures
            b == self.has_key(),
    {
        self.initialized
    }

    /// Decrypts `raw_data` in place and advances the key by its length; with
    /// no key installed, nothing changes.
    pub fn decrypt(&mut self, raw_data: &mut [u8]) -> (r: Result<(), String>)
        ensures
            r is Ok,
            final(self).has_key() == old(self).has_key(),
            !old(self).has_key() ==> final(raw_data)@ == old(raw_data)@ && final(self).key() == old(self).key(),
            old(self).has_key() ==> final(raw_data)@ == Seq::new(
                old(raw_data)@.len(),
                |i: int| plain_byte(old(raw_data)@, old(self).key(), i),
            ),
            old(self).has_key() ==> final(self).key() == advanced_key(
                old(self).key(),
                old(raw_data)@.len() as u32,
            ),
    {
        if !self.initialized {
            return Ok(());
        }
        let ghost cipher = raw_data@;
        let n = raw_data.len();
        let mut temp: u8 = 0;
        let mut i: usize = 0;
        while i < n
            invariant
                n == raw_data@.len(),
                cipher.len() == n,
                i <= n,
                i > 0 ==> temp == cipher[i - 1],
                i == 0 ==> temp == 0,
                forall|j: int| i <= j < n ==> raw_data@[j] == cipher[j],
                forall|j: int| 0 <= j < i ==> raw_data@[j] == plain_byte(cipher, self.key@, j),
            decreases n - i,
        {
            let temp2 = raw_data[i];
            let k = self.key[i % 16];
            raw_data.set(i, temp2 ^ k ^ temp);
            temp = temp2;
            i = i + 1;
        }
        assert(raw_data@ =~= Seq::new(n as nat, |i: int| plain_byte(cipher, self.key@, i)));
        self.advance_key(n as u32);
        Ok(())
    }

    /// Advances the key counter by `size`.
    fn advance_key(&mut self, size: u32)
        ensures
            final(self).key() == advanced_key(old(self).key(), size),
            final(self).has_key() == old(self).has_key(),
    {
        advance_counter(&mut self.key, size);
    }

    /// Decrypts one Blowfish block under `key` (used by the login handshake);
    /// a key shorter than 4 or longer than 56 bytes is refused.
    pub fn decrypt_blowfish_block(&self, block: &mut [u8; 8], key: &[u8]) -> (r: Result<(), String>)
        ensures
            r is Ok <==> blowfish_key_len_ok(key@.len() as int),
            r is Ok ==> final(block)@ == blowfish_le_decrypt(key@, old(block)@),
            r is Err ==> final(block)@ == old(block)@,
    {
        decrypt_block_in_place(block, key)
    }
}

impl Default for L2Cryptor {
    /// A cryptor with no key yet.
    fn default() -> (c: Self)
        ensures
            !c.has_key(),
    {
        Self::new()
    }
}

} // verus!
