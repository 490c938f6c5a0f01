//! The telemetry edition of the packet layer: opcode names, stream
//! decryption by 32-bit words, and the payloads the tracker consumes.

pub mod crypto;
pub mod opcode;
pub mod packet;
