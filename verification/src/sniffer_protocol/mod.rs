//! Lineage 2 framing, stream decryption and packet payload parsing.

pub mod codec;
pub mod crypto;
pub mod packet;
pub mod records;
pub mod items;
pub mod login;
