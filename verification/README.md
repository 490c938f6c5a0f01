# l2companion

Lineage 2 traffic analysis as a verified Rust library (Verus), with a thin
command-line program around it.

## Layout

- `src/` — the library; every function carries a contract checked by Verus.
  - `wire`, `text`, `byte_buffer`: little-endian field reading, string
    decoding, and the `bytes::BytesMut` buffer the framing works on.
  - `sniffer_protocol`: stream framing (`codec`), byte-wise stream
    decryption (`crypto`) and packet payload parsing (`packet`, `items`,
    `login`, `records`).
  - `companion_protocol`: the word-wise stream decryption, opcode names and
    the smaller packet set of the telemetry edition.
  - `key_schedule`, `block_cipher`: the rolling key shared by both ciphers,
    and Blowfish block decryption for the login handshake.
  - `sniffer_capture`, `companion_capture`: from captured Ethernet frames to
    packets; per-client TCP stream demultiplexing; interface selection.
  - `sniffer_core`, `service`: the character/account trackers as state
    machines from (state, packet) to (state, notifications).
  - `endpoint`, `display`: IPv4 endpoints and console renderings.
- `tests/` — tests of the library.
- `app/` — the CLI: capture I/O (pcap, pcap-file), the async tracker
  service, the REST/WebSocket API, and JSON output.

Verus checks every contract in `src/`; the tests run against the compiled
library.
