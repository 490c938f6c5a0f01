//! Lineage 2 traffic analysis: packet framing, stream decryption, packet
//! payload parsing, capture-frame demultiplexing and character state tracking.

pub mod wire;
pub mod text;
pub mod byte_buffer;
pub mod block_cipher;
pub mod key_schedule;
pub mod sniffer_protocol;
pub mod companion_protocol;
pub mod endpoint;
pub mod sniffer_capture;
pub mod companion_capture;
pub mod display;
pub mod session_stats;
pub mod service;
pub mod sniffer_core;
