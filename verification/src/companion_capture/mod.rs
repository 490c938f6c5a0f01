//! Capture-side logic of the telemetry edition: choosing an interface,
//! demultiplexing captured frames into client streams, and framing each
//! stream into packets.

pub mod device;
pub mod stream;
