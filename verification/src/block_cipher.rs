//! Blowfish block decryption (little-endian word order), used for the login
//! handshake.

use vstd::prelude::*;
use blowfish::Blowfish;
use byteorder::LE;
use cipher::{BlockDecrypt, InvalidLength, KeyInit};

verus! {

/// `cipher::InvalidLength`, the error of a key of unsupported length; held
/// opaquely.
#[verifier::external_type_specification]
#[verifier::external_body]
pub struct ExInvalidLength(InvalidLength);

/// The Blowfish decryption (little-endian word order) of the 8-byte `block`
/// under `key`.
pub uninterp spec fn blowfish_le_decrypt(key: Seq<u8>, block: Seq<u8>) -> Seq<u8>;

/// Whether Blowfish accepts a key of `n` bytes: from 4 to 56.
pub open spec fn blowfish_key_len_ok(n: int) -> bool {
    4 <= n <= 56
}

/// `Blowfish::<LE>::new_from_slice` then `BlockDecrypt::decrypt_block`:
/// claimed to succeed exactly for keys of 4 to 56 bytes (the range the
/// crate's key schedule accepts) and then to return the block's decryption,
/// which is only named, not stated.
#[verifier::external_body]
pub(crate) fn blowfish_decrypt(block: [u8; 8], key: &[u8]) -> (r: Result<[u8; 8], InvalidLength>)
    ensures
        r is Ok <==> blowfish_key_len_ok(key@.len() as int),
        r matches Ok(out) ==> out@ == blowfish_le_decrypt(key@, block@),
{
    let cipher = Blowfish::<LE>::new_from_slice(key)?;
    let mut out = block;
    cipher.decrypt_block(cipher::generic_array::GenericArray::from_mut_slice(&mut out));
    Ok(out)
}

/// Decrypts one block in place; the error names the unsupported key length.
pub fn decrypt_block_in_place(block: &mut [u8; 8], key: &[u8]) -> (r: Result<(), String>)
    ensures
        r is Ok <==> blowfish_key_len_ok(key@.len() as int),
        r is Ok ==> final(block)@ == blowfish_le_decrypt(key@, old(block)@),
        r is Err ==> final(block)@ == old(block)@,
        r matches Err(m) ==> m@ == "Failed to create Blowfish cipher: Invalid Length"@,
{
    match blowfish_decrypt(*block, key) {
        Ok(out) => {
            *block = out;
            Ok(())
        },
        Err(_) => Err("Failed to create Blowfish cipher: Invalid Length".to_owned()),
    }
}

} // verus!
