//! Demultiplexing captured frames into per-client TCP streams: connection
//! lifecycle from the TCP flags, and framing and parsing of what the server
//! sends to each client.

use vstd::prelude::*;
use bytes::BytesMut;
use crate::byte_buffer::{buffer_bytes, buffer_extend, buffer_with_capacity};
use crate::endpoint::Endpoint;
use crate::sniffer_protocol::codec::L2FrameCodec;
use crate::sniffer_capture::drain_frames;
use crate::companion_protocol::packet::{server_packet_is, L2Packet};

verus! {

/// Direction of a packet relative to the client.
#[derive(Debug, Clone, Copy, PartialEq, Eq, Structural)]
pub enum PacketDirection {
    ServerToClient,
    ClientToServer,
}

/// A parsed packet of one client session.
#[derive(Debug)]
pub struct SessionPacket {
    pub client_addr: Endpoint,
    pub server_addr: Endpoint,
    pub direction: PacketDirection,
    pub packet: L2Packet,
}

/// What the demultiplexer reports.
#[derive(Debug)]
pub enum SessionMessage {
    ClientConnected { client_addr: Endpoint, server_addr: Endpoint },
    ClientDisconnected { client_addr: Endpoint, reason: String },
    Packet(SessionPacket),
}

/// Reassembly state of one client's TCP stream.
pub struct ClientStream {
    pub client_addr: Endpoint,
    pub server_addr: Endpoint,
    pub rx_buffer: BytesMut,
    pub codec: L2FrameCodec,
    pub packet_count: u64,
}

/// Abstract value of a [`ClientStream`].
pub struct StreamView {
    pub client: Endpoint,
    pub server: Endpoint,
    pub buffered: Seq<u8>,
    pub max_frame: usize,
    pub count: u64,
}

impl View for ClientStream {
    type V = StreamView;

    open spec fn view(&self) -> StreamView {
        StreamView {
            client: self.client_addr,
            server: self.server_addr,
            buffered: buffer_bytes(self.rx_buffer),
            max_frame: self.codec.max_size(),
            count: self.packet_count,
        }
    }
}

/// The frames of a sequence that carry at least an opcode.
pub open spec fn nonempty_frames(frames: Seq<Seq<u8>>) -> Seq<Seq<u8>>
    decreases frames.len(),
{
    if frames.len() == 0 {
        seq![]
    } else {
        let rest = nonempty_frames(frames.drop_first());
        if frames[0].len() == 0 { rest } else { seq![frames[0]] + rest }
    }
}

/// Whether `m` reports the server-to-client packet of frame `f` on the
/// session between `client` and `server`.
pub open spec fn reports_packet(m: SessionMessage, client: Endpoint, server: Endpoint, f: Seq<u8>) -> bool {
    m matches SessionMessage::Packet(p) && p.client_addr == client && p.server_addr == server
        && p.direction == PacketDirection::ServerToClient && f.len() > 0
        && server_packet_is(p.packet, f[0], f.skip(1))
}

/// A packet counter after `n` more packets, wrapping at 2^64.
pub open spec fn count_after(c: u64, n: nat) -> u64 {
    ((c + n) % 0x1_0000_0000_0000_0000) as u64
}

/// Whether `msgs`, emitted by a stream with view `before` that received
/// `payload` and ended with view `after`, report exactly the complete frames
/// now buffered, in order.
pub open spec fn ingested(before: StreamView, payload: Seq<u8>, after: StreamView, msgs: Seq<SessionMessage>) -> bool {
    let d = drain_frames(before.max_frame, before.buffered + payload);
    let frames = nonempty_frames(d.0);
    &&& after.client == before.client
    &&& after.server == before.server
    &&& after.max_frame == before.max_frame
    &&& after.buffered == d.1
    &&& after.count == count_after(before.count, frames.len())
    &&& msgs.len() == frames.len()
    &&& forall|i: int| 0 <= i < msgs.len() ==> reports_packet(#[trigger] msgs[i], before.client, before.server, frames[i])
}

/// Appending a frame to a sequence appends it to the non-empty ones when it
/// is not empty.
proof fn lemma_nonempty_push(frames: Seq<Seq<u8>>, f: Seq<u8>)
    ensures
        nonempty_frames(frames.push(f)) == nonempty_frames(frames) + (if f.len() == 0 {
            Seq::<Seq<u8>>::empty()
        } else {
            seq![f]
        }),
    decreases frames.len(),
{
    if frames.len() == 0 {
        assert(frames.push(f).drop_first() =~= Seq::<Seq<u8>>::empty());
        assert(nonempty_frames(Seq::<Seq<u8>>::empty()) =~= Seq::<Seq<u8>>::empty());
        if f.len() == 0 {
            assert(nonempty_frames(frames.push(f)) =~= Seq::<Seq<u8>>::empty());
        } else {
            assert(nonempty_frames(frames.push(f)) =~= seq![f]);
        }
    } else {
        assert(frames.push(f).drop_first() =~= frames.drop_first().push(f));
        lemma_nonempty_push(frames.drop_first(), f);
        assert(frames.push(f)[0] == frames[0]);
        if frames[0].len() == 0 {
        } else {
            assert(seq![frames[0]] + (nonempty_frames(frames.drop_first()) + (if f.len() == 0 {
                Seq::<Seq<u8>>::empty()
            } else {
                seq![f]
            })) =~= (seq![frames[0]] + nonempty_frames(frames.drop_first())) + (if f.len() == 0 {
                Seq::<Seq<u8>>::empty()
            } else {
                seq![f]
            }));
        }
    }
}

/// One more packet on a wrapping counter.
proof fn lemma_count_step(c: u64, n: nat, cur: u64)
    requires
        cur == count_after(c, n),
    ensures
        (if cur < u64::MAX { (cur + 1) as u64 } else { 0u64 }) == count_after(c, n + 1),
{
    let m: int = 0x1_0000_0000_0000_0000;
    let a: int = c + n;
    assert(a >= 0);
    let q = a / m;
    let r = a % m;
    assert(a == q * m + r && 0 <= r < m) by (nonlinear_arith)
        requires m == 0x1_0000_0000_0000_0000, q == a / m, r == a % m, a >= 0;
    if r + 1 < m {
        assert((a + 1) % m == r + 1) by (nonlinear_arith)
            requires a == q * m + r, 0 <= r, r + 1 < m, m > 0;
    } else {
        assert((a + 1) % m == 0) by (nonlinear_arith)
            requires a == q * m + r, r + 1 == m, m > 0;
    }
}

impl ClientStream {
    /// A fresh stream between a client and a server: nothing buffered, a
    /// codec for frames of up to 65535 bytes, no packets counted.
    pub fn new(client_addr: Endpoint, server_addr: Endpoint) -> (s: Self)
        ensures
            s@.client == client_addr,
            s@.server == server_addr,
            s@.buffered == Seq::<u8>::empty(),
            s@.max_frame == 65535,
            s@.count == 0,
    {
        ClientStream {
            client_addr,
            server_addr,
            rx_buffer: buffer_with_capacity(65535),
            codec: L2FrameCodec::default(),
            packet_count: 0,
        }
    }

    /// Appends bytes the server sent and reports every complete non-empty
    /// frame now buffered as a parsed packet, in order.
    pub fn ingest_server_payload(&mut self, payload: &[u8]) -> (msgs: Vec<SessionMessage>)
        requires
            buffer_bytes(old(self).rx_buffer).len() + payload@.len() <= isize::MAX,
        ensures
            ingested(old(self)@, payload@, final(self)@, msgs@),
    {
        buffer_extend(&mut self.rx_buffer, payload);
        let ghost max = self.codec.max_size();
        let ghost start = buffer_bytes(self.rx_buffer);
        let ghost c0 = self.packet_count;
        let mut msgs: Vec<SessionMessage> = Vec::new();
        let ghost mut frames: Seq<Seq<u8>> = seq![];
        loop
            invariant_except_break
                self.codec.max_size() == max,
                max == old(self).codec.max_size(),
                start == buffer_bytes(old(self).rx_buffer) + payload@,
                self.client_addr == old(self).client_addr,
                self.server_addr == old(self).server_addr,
                c0 == old(self).packet_count,
                drain_frames(max, start).0 == frames + drain_frames(max, buffer_bytes(self.rx_buffer)).0,
                drain_frames(max, start).1 == drain_frames(max, buffer_bytes(self.rx_buffer)).1,
                self.packet_count == count_after(c0, nonempty_frames(frames).len()),
                msgs@.len() == nonempty_frames(frames).len(),
                forall|i: int| 0 <= i < msgs@.len() ==> reports_packet(#[trigger] msgs@[i], self.client_addr, self.server_addr, nonempty_frames(frames)[i]),
            ensures
                self.codec.max_size() == max,
                max == old(self).codec.max_size(),
                start == buffer_bytes(old(self).rx_buffer) + payload@,
                self.client_addr == old(self).client_addr,
                self.server_addr == old(self).server_addr,
                drain_frames(max, start).0 == frames,
                drain_frames(max, start).1 == buffer_bytes(self.rx_buffer),
                self.packet_count == count_after(c0, nonempty_frames(frames).len()),
                c0 == old(self).packet_count,
                msgs@.len() == nonempty_frames(frames).len(),
                forall|i: int| 0 <= i < msgs@.len() ==> reports_packet(#[trigger] msgs@[i], self.client_addr, self.server_addr, nonempty_frames(frames)[i]),
            decreases buffer_bytes(self.rx_buffer).len(),
        {
            match self.codec.decode(&mut self.rx_buffer) {
                Ok(Some(frame)) => {
                    let ghost prev_frames = frames;
                    proof {
                        lemma_nonempty_push(frames, frame@);
                        assert(frames + (seq![frame@] + drain_frames(max, buffer_bytes(self.rx_buffer)).0) =~= frames.push(frame@) + drain_frames(max, buffer_bytes(self.rx_buffer)).0);
                        frames = frames.push(frame@);
                    }
                    let fl = frame.len();
                    if fl > 0 {
                        proof { lemma_count_step(c0, nonempty_frames(prev_frames).len(), self.packet_count); }
                        self.packet_count = if self.packet_count < u64::MAX { self.packet_count + 1 } else { 0 };
                        let opcode = frame[0];
                        let body = &frame.as_slice()[1..fl];
                        assert(body@ =~= frame@.skip(1));
                        let parsed = L2Packet::parse(opcode, body);
                        let m = SessionMessage::Packet(SessionPacket {
                            client_addr: self.client_addr,
                            server_addr: self.server_addr,
                            direction: PacketDirection::ServerToClient,
                            packet: parsed,
                        });
                        let ghost prev = msgs@;
                        msgs.push(m);
                        assert(nonempty_frames(frames) =~= nonempty_frames(prev_frames).push(frame@));
                        assert forall|i: int| 0 <= i < msgs@.len() implies reports_packet(#[trigger] msgs@[i], self.client_addr, self.server_addr, nonempty_frames(frames)[i]) by {
                            if i < prev.len() {
                                assert(msgs@[i] == prev[i]);
                            }
                        }
                    } else {
                        assert(nonempty_frames(frames) =~= nonempty_frames(prev_frames));
                    }
                },
                _ => {
                    assert(frames + Seq::<Seq<u8>>::empty() =~= frames);
                    break;
                },
            }
        }
        msgs
    }
}


// ---------------------------------------------------------------- frames

/// Length of the IPv4 header of an Ethernet frame.
pub open spec fn ip_header_len(raw: Seq<u8>) -> int {
    (raw[14] % 16) * 4
}

/// Offset of the TCP header.
pub open spec fn tcp_start(raw: Seq<u8>) -> int {
    14 + ip_header_len(raw)
}

/// Whether a frame is Ethernet II carrying IPv4 and TCP with both headers
/// present (at least 54 bytes, and the TCP header's fixed 20 bytes).
pub open spec fn is_tcp_ipv4(raw: Seq<u8>) -> bool {
    &&& raw.len() >= 54
    &&& raw[12] == 0x08 && raw[13] == 0x00
    &&& raw[14] / 16 == 4
    &&& raw[23] == 6
    &&& raw.len() >= tcp_start(raw) + 20
}

/// Big-endian 16-bit value at `p`.
pub open spec fn be16(raw: Seq<u8>, p: int) -> int {
    raw[p] * 256 + raw[p + 1]
}

/// The endpoint of the IPv4 address at `ip` and the port at `port`.
pub open spec fn endpoint_at(raw: Seq<u8>, ip: int, port: int) -> Endpoint {
    Endpoint {
        ip: (raw[ip] * 16777216 + raw[ip + 1] * 65536 + raw[ip + 2] * 256 + raw[ip + 3]) as u32,
        port: be16(raw, port) as u16,
    }
}

/// Source endpoint of a TCP/IPv4 frame.
pub open spec fn source_of(raw: Seq<u8>) -> Endpoint {
    endpoint_at(raw, 26, tcp_start(raw))
}

/// Destination endpoint of a TCP/IPv4 frame.
pub open spec fn destination_of(raw: Seq<u8>) -> Endpoint {
    endpoint_at(raw, 30, tcp_start(raw) + 2)
}

/// The TCP FIN flag.
pub open spec fn fin_flag(raw: Seq<u8>) -> bool {
    raw[tcp_start(raw) + 13] % 2 == 1
}

/// The TCP RST flag.
pub open spec fn rst_flag(raw: Seq<u8>) -> bool {
    (raw[tcp_start(raw) + 13] / 4) % 2 == 1
}

/// Where the TCP payload starts.
pub open spec fn header_end(raw: Seq<u8>) -> int {
    tcp_start(raw) + (raw[tcp_start(raw) + 12] / 16) * 4
}

/// Client, server and whether the frame goes to the client, for a TCP/IPv4
/// frame from or to one of the game ports (the source port is tried first).
pub open spec fn route(raw: Seq<u8>, ports: Seq<u16>) -> Option<(Endpoint, Endpoint, bool)> {
    if !is_tcp_ipv4(raw) {
        None
    } else if ports.contains(source_of(raw).port) {
        Some((destination_of(raw), source_of(raw), true))
    } else if ports.contains(destination_of(raw).port) {
        Some((source_of(raw), destination_of(raw), false))
    } else {
        None
    }
}

// ---------------------------------------------------------------- table

/// Views of a table of streams.
pub open spec fn table_view(v: Seq<ClientStream>) -> Seq<StreamView> {
    v.map_values(|s: ClientStream| s@)
}

/// No two streams of a table belong to the same client.
pub open spec fn distinct_clients(t: Seq<StreamView>) -> bool {
    forall|i: int, j: int| 0 <= i < j < t.len() ==> t[i].client != t[j].client
}

/// The first stream from `i` on that belongs to `c`.
pub open spec fn client_index(t: Seq<StreamView>, c: Endpoint, i: int) -> Option<int>
    decreases t.len() - i,
{
    if i < 0 || i >= t.len() {
        None
    } else if t[i].client == c {
        Some(i)
    } else {
        client_index(t, c, i + 1)
    }
}

/// The view of a fresh stream.
pub open spec fn fresh_stream(client: Endpoint, server: Endpoint) -> StreamView {
    StreamView { client, server, buffered: Seq::empty(), max_frame: 65535, count: 0 }
}

/// The reason given when a client goes away.
pub open spec fn disconnect_reason(rst: bool) -> Seq<char> {
    if rst { "Connection reset (RST)"@ } else { "Connection closed (FIN)"@ }
}

/// Whether `msgs` and the table `after` are what a captured frame yields
/// from the table `before`: frames off the game ports change nothing; a FIN
/// or RST of a known client drops its stream; otherwise an unknown client
/// gets a fresh stream (announced), and what the server sent is framed on
/// the client's stream.
pub open spec fn frame_outcome(
    raw: Seq<u8>,
    ports: Seq<u16>,
    before: Seq<StreamView>,
    after: Seq<StreamView>,
    msgs: Seq<SessionMessage>,
) -> bool {
    match route(raw, ports) {
        None => after == before && msgs.len() == 0,
        Some((c, s, to_client)) => {
            let known = client_index(before, c, 0);
            if (fin_flag(raw) || rst_flag(raw)) && known is Some {
                &&& after == before.remove(known->0)
                &&& msgs.len() == 1
                &&& msgs[0] matches SessionMessage::ClientDisconnected { client_addr, reason }
                    && client_addr == c && reason@ == disconnect_reason(rst_flag(raw))
            } else {
                let mid = if known is Some { before } else { before.push(fresh_stream(c, s)) };
                let k = if known is Some { known->0 } else { before.len() as int };
                let pre: int = if known is Some { 0 } else { 1 };
                &&& (known is None ==> msgs.len() >= 1 && msgs[0] == SessionMessage::ClientConnected { client_addr: c, server_addr: s })
                &&& if to_client && raw.len() > header_end(raw) {
                    &&& after.len() == mid.len()
                    &&& forall|j: int| 0 <= j < mid.len() && j != k ==> after[j] == mid[j]
                    &&& msgs.len() >= pre
                    &&& ingested(mid[k], raw.skip(header_end(raw)), after[k], msgs.skip(pre))
                } else {
                    after == mid && msgs.len() == pre
                }
            }
        },
    }
}

/// What a server frame to a client that has a stream, neither closing nor
/// resetting the connection, adds to that stream: exactly the bytes after
/// the Ethernet header (14 bytes), the IPv4 header (4 times its IHL nibble)
/// and the TCP header (4 times its data-offset nibble, options included);
/// no other stream changes, and with no bytes after the headers nothing
/// happens.
pub proof fn lemma_server_payload_after_headers(
    raw: Seq<u8>,
    ports: Seq<u16>,
    before: Seq<StreamView>,
    after: Seq<StreamView>,
    msgs: Seq<SessionMessage>,
    k: int,
)
    requires
        frame_outcome(raw, ports, before, after, msgs),
        route(raw, ports) matches Some((c, srv, to_client)) && to_client && client_index(before, c, 0) == Some(k),
        !fin_flag(raw),
        !rst_flag(raw),
    ensures
        ({
            let ip_end = 14 + 4 * (raw[14] % 16);
            let body_start = ip_end + 4 * (raw[ip_end + 12] / 16);
            &&& raw.len() > body_start ==> {
                &&& after.len() == before.len()
                &&& forall|j: int| 0 <= j < before.len() && j != k ==> after[j] == before[j]
                &&& ingested(before[k], raw.skip(body_start), after[k], msgs)
            }
            &&& raw.len() <= body_start ==> after == before && msgs.len() == 0
        }),
{
    assert(msgs.skip(0) =~= msgs);
}

/// What the search for a client's stream finds.
proof fn lemma_client_index(t: Seq<StreamView>, c: Endpoint, i: int)
    requires
        0 <= i,
    ensures
        match client_index(t, c, i) {
            Some(k) => i <= k < t.len() && t[k].client == c && forall|j: int| i <= j < k ==> t[j].client != c,
            None => forall|j: int| i <= j < t.len() ==> t[j].client != c,
        },
    decreases t.len() - i,
{
    if i < t.len() && t[i].client != c {
        lemma_client_index(t, c, i + 1);
    }
}

/// Whether `ports` holds `p`.
fn contains_port(ports: &[u16], p: u16) -> (r: bool)
    ensures
        r == ports@.contains(p),
{
    let mut i: usize = 0;
    while i < ports.len()
        invariant
            i <= ports@.len(),
            forall|j: int| 0 <= j < i ==> ports@[j] != p,
        decreases ports@.len() - i,
    {
        if ports[i] == p {
            assert(ports@[i as int] == p);
            return true;
        }
        i = i + 1;
    }
    false
}

/// Position of the stream of `c`.
fn find_stream(streams: &Vec<ClientStream>, c: Endpoint) -> (r: Option<usize>)
    ensures
        match r {
            Some(i) => client_index(table_view(streams@), c, 0) == Some(i as int),
            None => client_index(table_view(streams@), c, 0) is None,
        },
{
    let ghost t = table_view(streams@);
    let mut i: usize = 0;
    while i < streams.len()
        invariant
            t == table_view(streams@),
            t.len() == streams@.len(),
            i <= streams@.len(),
            client_index(t, c, 0) == client_index(t, c, i as int),
        decreases streams@.len() - i,
    {
        if streams[i].client_addr == c {
            return Some(i);
        }
        i = i + 1;
    }
    None
}

/// The endpoint of the address at `ip` and the port at `port`.
fn read_endpoint(raw: &[u8], ip: usize, port: usize) -> (e: Endpoint)
    requires
        ip + 4 <= raw@.len(),
        port + 2 <= raw@.len(),
    ensures
        e == endpoint_at(raw@, ip as int, port as int),
{
    let a = raw[ip] as u32;
    let b = raw[ip + 1] as u32;
    let c = raw[ip + 2] as u32;
    let d = raw[ip + 3] as u32;
    Endpoint {
        ip: a * 16777216 + b * 65536 + c * 256 + d,
        port: (raw[port] as u16) * 256 + (raw[port + 1] as u16),
    }
}

/// Routes a captured Ethernet frame: tracks client connections on the game
/// ports in `streams` and returns what happened, in order.
pub fn process_raw_frame(raw: &[u8], game_ports: &[u16], streams: &mut Vec<ClientStream>) -> (msgs: Vec<SessionMessage>)
    requires
        raw@.len() <= isize::MAX,
        distinct_clients(table_view(old(streams)@)),
        forall|i: int| 0 <= i < old(streams)@.len() ==> (#[trigger] old(streams)@[i])@.buffered.len() + raw@.len() <= isize::MAX,
    ensures
        distinct_clients(table_view(final(streams)@)),
        frame_outcome(raw@, game_ports@, table_view(old(streams)@), table_view(final(streams)@), msgs@),
{
    let ghost before = table_view(streams@);
    let mut msgs: Vec<SessionMessage> = Vec::new();
    let n = raw.len();
    if n < 54 || raw[12] != 0x08 || raw[13] != 0x00 {
        return msgs;
    }
    let v = raw[14];
    assert(((v >> 4) & 0x0F) == v / 16) by (bit_vector);
    assert((v & 0x0F) == v % 16) by (bit_vector);
    let ip_header_len = ((v & 0x0F) * 4) as usize;
    if (v >> 4) & 0x0F != 4 || raw[23] != 6 || n < 14 + ip_header_len + 20 {
        return msgs;
    }
    let t = 14 + ip_header_len;
    let src = read_endpoint(raw, 26, t);
    let dst = read_endpoint(raw, 30, t + 2);
    let off = raw[t + 12];
    assert(((off >> 4) & 0x0F) == off / 16) by (bit_vector);
    let tcp_header_len = (((off >> 4) & 0x0F) * 4) as usize;
    let flags = raw[t + 13];
    assert(((flags & 0x01) != 0) == (flags % 2 == 1)) by (bit_vector);
    assert(((flags & 0x04) != 0) == ((flags / 4) % 2 == 1)) by (bit_vector);
    let is_fin = (flags & 0x01) != 0;
    let is_rst = (flags & 0x04) != 0;
    let total_header_len = t + tcp_header_len;
    let (client, server, to_client) = if contains_port(game_ports, src.port) {
        (dst, src, true)
    } else if contains_port(game_ports, dst.port) {
        (src, dst, false)
    } else {
        return msgs;
    };
    let known = find_stream(streams, client);
    proof { lemma_client_index(before, client, 0); }
    if is_fin || is_rst {
        if let Some(i) = known {
            let _gone = streams.remove(i);
            proof {
                assert(table_view(streams@) =~= before.remove(i as int));
            }
            let reason = if is_rst {
                "Connection reset (RST)".to_owned()
            } else {
                "Connection closed (FIN)".to_owned()
            };
            msgs.push(SessionMessage::ClientDisconnected { client_addr: client, reason });
            return msgs;
        }
    }
    let k: usize = match known {
        Some(i) => i,
        None => {
            let ghost prev = streams@;
            streams.push(ClientStream::new(client, server));
            assert(table_view(streams@) =~= before.push(fresh_stream(client, server)));
            assert forall|a: int, b: int| 0 <= a < b < table_view(streams@).len() implies
                table_view(streams@)[a].client != table_view(streams@)[b].client by {
                if b == prev.len() {
                    assert(table_view(streams@)[a] == before[a]);
                }
            }
            msgs.push(SessionMessage::ClientConnected { client_addr: client, server_addr: server });
            streams.len() - 1
        },
    };
    let ghost mid = table_view(streams@);
    let ghost pre = msgs@;
    if to_client && n > total_header_len {
        let payload = &raw[total_header_len..n];
        assert(payload@ =~= raw@.skip(total_header_len as int));
        assert(streams@[k as int]@ == mid[k as int]);
        assert(mid[k as int].buffered.len() + raw@.len() <= isize::MAX) by {
            if known is Some {
                assert(table_view(old(streams)@)[k as int] == old(streams)@[k as int]@);
                assert(old(streams)@[k as int]@.buffered.len() + raw@.len() <= isize::MAX);
            }
        }
        let more = streams[k].ingest_server_payload(payload);
        let ghost more_v = more@;
        let mut more = more;
        msgs.append(&mut more);
        proof {
            assert(msgs@ =~= pre + more_v);
            assert(msgs@.skip(pre.len() as int) =~= more_v);
            assert(table_view(streams@).len() == mid.len());
            assert forall|j: int| 0 <= j < mid.len() && j != k implies table_view(streams@)[j] == mid[j] by {}
            assert forall|a: int, b: int| 0 <= a < b < table_view(streams@).len() implies
                table_view(streams@)[a].client != table_view(streams@)[b].client by {
                assert(mid[a].client != mid[b].client);
            }
        }
    }
    msgs
}


// ---------------------------------------------------------------- builder

/// How to open a capture, and which ports carry game traffic.
pub struct CaptureBuilder {
    device_name: Option<String>,
    pcap_file: Option<String>,
    bpf_filter: String,
    snaplen: i32,
    promiscuous: bool,
    timeout_ms: i32,
    game_ports: Vec<u16>,
}

/// The capture filter used unless another is given.
pub open spec fn default_capture_filter() -> Seq<char> {
    "tcp port 7777 or tcp port 2106"@
}

impl CaptureBuilder {
    /// The interface to capture on, if one was named.
    pub closed spec fn device_spec(&self) -> Option<Seq<char>> {
        match self.device_name {
            Some(d) => Some(d@),
            None => None,
        }
    }

    /// The capture file to read, if one was named.
    pub closed spec fn file_spec(&self) -> Option<Seq<char>> {
        match self.pcap_file {
            Some(d) => Some(d@),
            None => None,
        }
    }

    /// The capture filter.
    pub closed spec fn filter_spec(&self) -> Seq<char> {
        self.bpf_filter@
    }

    /// Snapshot length, promiscuous mode and read timeout.
    pub closed spec fn live_settings(&self) -> (i32, bool, i32) {
        (self.snaplen, self.promiscuous, self.timeout_ms)
    }

    /// The game ports.
    pub closed spec fn ports_spec(&self) -> Seq<u16> {
        self.game_ports@
    }

    /// Live capture on the default interface with the game ports' filter, a
    /// 65535-byte snapshot, promiscuous mode, a one-second timeout, and the
    /// game ports 7777 and 2106.
    pub fn new() -> (b: Self)
        ensures
            b.device_spec() is None,
            b.file_spec() is None,
            b.filter_spec() == default_capture_filter(),
            b.live_settings() == (65535i32, true, 1000i32),
            b.ports_spec() == seq![7777u16, 2106u16],
    {
        let game_ports: Vec<u16> = vec![7777, 2106];
        assert(game_ports@ =~= seq![7777u16, 2106u16]);
        CaptureBuilder {
            device_name: None,
            pcap_file: None,
            bpf_filter: "tcp port 7777 or tcp port 2106".to_owned(),
            snaplen: 65535,
            promiscuous: true,
            timeout_ms: 1000,
            game_ports,
        }
    }

    /// Captures on the named interface.
    pub fn device(self, device: String) -> (b: Self)
        ensures
            b.device_spec() == Some(device@),
            b.file_spec() == self.file_spec(),
            b.filter_spec() == self.filter_spec(),
            b.live_settings() == self.live_settings(),
            b.ports_spec() == self.ports_spec(),
    {
        CaptureBuilder { device_name: Some(device), ..self }
    }

    /// Reads the named capture file instead of an interface.
    pub fn pcap_file(self, path: String) -> (b: Self)
        ensures
            b.file_spec() == Some(path@),
            b.device_spec() == self.device_spec(),
            b.filter_spec() == self.filter_spec(),
            b.live_settings() == self.live_settings(),
            b.ports_spec() == self.ports_spec(),
    {
        CaptureBuilder { pcap_file: Some(path), ..self }
    }

    /// Uses another capture filter.
    pub fn filter(self, filter: String) -> (b: Self)
        ensures
            b.filter_spec() == filter@,
            b.device_spec() == self.device_spec(),
            b.file_spec() == self.file_spec(),
            b.live_settings() == self.live_settings(),
            b.ports_spec() == self.ports_spec(),
    {
        CaptureBuilder { bpf_filter: filter, ..self }
    }

    /// Uses other game ports.
    pub fn game_ports(self, ports: Vec<u16>) -> (b: Self)
        ensures
            b.ports_spec() == ports@,
            b.device_spec() == self.device_spec(),
            b.file_spec() == self.file_spec(),
            b.filter_spec() == self.filter_spec(),
            b.live_settings() == self.live_settings(),
    {
        CaptureBuilder { game_ports: ports, ..self }
    }

    /// The interface to capture on, if one was named.
    pub fn device_name(&self) -> (d: Option<&String>)
        ensures
            match d {
                Some(s) => self.device_spec() == Some(s@),
                None => self.device_spec() is None,
            },
    {
        match &self.device_name {
            Some(s) => Some(s),
            None => None,
        }
    }

    /// The capture file to read, if one was named.
    pub fn capture_file(&self) -> (d: Option<&String>)
        ensures
            match d {
                Some(s) => self.file_spec() == Some(s@),
                None => self.file_spec() is None,
            },
    {
        match &self.pcap_file {
            Some(s) => Some(s),
            None => None,
        }
    }

    /// The capture filter.
    pub fn bpf_filter(&self) -> (f: &String)
        ensures
            f@ == self.filter_spec(),
    {
        &self.bpf_filter
    }

    /// Snapshot length, promiscuous mode and read timeout in milliseconds.
    pub fn settings(&self) -> (r: (i32, bool, i32))
        ensures
            r == self.live_settings(),
    {
        (self.snaplen, self.promiscuous, self.timeout_ms)
    }

    /// The game ports.
    pub fn ports(&self) -> (p: &Vec<u16>)
        ensures
            p@ == self.ports_spec(),
    {
        &self.game_ports
    }
}

impl Default for CaptureBuilder {
    /// Same as [`CaptureBuilder::new`].
    fn default() -> (b: Self)
        ensures
            b.device_spec() is None,
            b.file_spec() is None,
            b.filter_spec() == default_capture_filter(),
            b.live_settings() == (65535i32, true, 1000i32),
            b.ports_spec() == seq![7777u16, 2106u16],
    {
        Self::new()
    }
}

} // verus!

verus! {

/// The client of a routed frame.
pub open spec fn routed_client(raw: Seq<u8>, ports: Seq<u16>) -> Endpoint {
    match route(raw, ports) {
        Some((c, _s, _d)) => c,
        None => Endpoint { ip: 0, port: 0 },
    }
}

/// The server of a routed frame.
pub open spec fn routed_server(raw: Seq<u8>, ports: Seq<u16>) -> Endpoint {
    match route(raw, ports) {
        Some((_c, s, _d)) => s,
        None => Endpoint { ip: 0, port: 0 },
    }
}

/// A FIN or RST from or to a known client drops exactly that client's
/// stream: afterwards no stream belongs to it, and the others stay in order.
pub proof fn lemma_close_drops_stream(raw: Seq<u8>, ports: Seq<u16>, before: Seq<StreamView>, after: Seq<StreamView>, msgs: Seq<SessionMessage>)
    requires
        distinct_clients(before),
        frame_outcome(raw, ports, before, after, msgs),
        route(raw, ports) is Some,
        fin_flag(raw) || rst_flag(raw),
        client_index(before, routed_client(raw, ports), 0) is Some,
    ensures
        client_index(after, routed_client(raw, ports), 0) is None,
        after.len() + 1 == before.len(),
        msgs.len() == 1,
{
    let c = routed_client(raw, ports);
    let k = client_index(before, c, 0)->0;
    lemma_client_index(before, c, 0);
    lemma_client_index(after, c, 0);
    assert forall|j: int| 0 <= j < after.len() implies after[j].client != c by {
        let j2 = if j < k { j } else { j + 1 };
        assert(after[j] == before[j2]);
    }
}

/// A frame from a new client on a game port opens a stream for it,
/// announced first.
pub proof fn lemma_new_client_opens_stream(raw: Seq<u8>, ports: Seq<u16>, before: Seq<StreamView>, after: Seq<StreamView>, msgs: Seq<SessionMessage>)
    requires
        distinct_clients(before),
        frame_outcome(raw, ports, before, after, msgs),
        route(raw, ports) is Some,
        client_index(before, routed_client(raw, ports), 0) is None,
    ensures
        client_index(after, routed_client(raw, ports), 0) == Some(before.len() as int),
        after[before.len() as int].server == routed_server(raw, ports),
        msgs.len() >= 1,
        msgs[0] == (SessionMessage::ClientConnected { client_addr: routed_client(raw, ports), server_addr: routed_server(raw, ports) }),
{
    let c = routed_client(raw, ports);
    lemma_client_index(before, c, 0);
    lemma_client_index(after, c, 0);
    let mid = before.push(fresh_stream(c, routed_server(raw, ports)));
    assert(after.len() == mid.len());
    assert forall|j: int| 0 <= j < before.len() implies after[j].client != c by {
        assert(after[j] == mid[j]);
    }
    lemma_client_index_at(after, c, before.len() as int);
}

/// A stream that belongs to the client with no earlier one is what the
/// search finds.
proof fn lemma_client_index_at(t: Seq<StreamView>, c: Endpoint, k: int)
    requires
        0 <= k < t.len(),
        t[k].client == c,
        forall|j: int| 0 <= j < k ==> t[j].client != c,
    ensures
        client_index(t, c, 0) == Some(k),
{
    lemma_client_index(t, c, 0);
}

} // verus!

verus! {

/// The non-empty frames of a concatenation are those of each part.
proof fn lemma_nonempty_concat(p: Seq<Seq<u8>>, q: Seq<Seq<u8>>)
    ensures
        nonempty_frames(p + q) == nonempty_frames(p) + nonempty_frames(q),
    decreases p.len(),
{
    if p.len() == 0 {
        assert(p + q =~= q);
        assert(nonempty_frames(p) =~= Seq::<Seq<u8>>::empty());
        assert(Seq::<Seq<u8>>::empty() + nonempty_frames(q) =~= nonempty_frames(q));
    } else {
        assert((p + q).drop_first() =~= p.drop_first() + q);
        assert((p + q)[0] == p[0]);
        lemma_nonempty_concat(p.drop_first(), q);
        if p[0].len() > 0 {
            assert(seq![p[0]] + (nonempty_frames(p.drop_first()) + nonempty_frames(q))
                =~= (seq![p[0]] + nonempty_frames(p.drop_first())) + nonempty_frames(q));
        }
    }
}

/// Counting in two steps is counting the total, wrapping.
proof fn lemma_count_after_twice(c: u64, n1: nat, n2: nat)
    ensures
        count_after(count_after(c, n1), n2) == count_after(c, n1 + n2),
{
    let m: int = 0x1_0000_0000_0000_0000;
    let a: int = c + n1;
    assert(((a % m) + n2) % m == (a + n2) % m) by (nonlinear_arith)
        requires m == 0x1_0000_0000_0000_0000, a >= 0, n2 >= 0;
}

/// Bytes the server sends, delivered to a stream in two pieces, are
/// reported as the same packets, in the same order, as when delivered at
/// once; the stream ends with the same bytes buffered and the same count.
pub proof fn lemma_ingest_in_pieces(
    before: StreamView,
    a: Seq<u8>,
    b: Seq<u8>,
    mid: StreamView,
    first: Seq<SessionMessage>,
    after: StreamView,
    second: Seq<SessionMessage>,
)
    requires
        ingested(before, a, mid, first),
        ingested(mid, b, after, second),
    ensures
        ({
            let d = drain_frames(before.max_frame, before.buffered + (a + b));
            let frames = nonempty_frames(d.0);
            &&& after.buffered == d.1
            &&& after.count == count_after(before.count, frames.len())
            &&& (first + second).len() == frames.len()
            &&& forall|i: int| 0 <= i < frames.len() ==> reports_packet(#[trigger] (first + second)[i], before.client, before.server, frames[i])
        }),
{
    let max = before.max_frame;
    let x = before.buffered + a;
    assert(before.buffered + (a + b) =~= x + b);
    crate::sniffer_capture::lemma_drain_incremental(max, x, b);
    let d1 = drain_frames(max, x);
    let d2 = drain_frames(max, d1.1 + b);
    lemma_nonempty_concat(d1.0, d2.0);
    let f1 = nonempty_frames(d1.0);
    let f2 = nonempty_frames(d2.0);
    lemma_count_after_twice(before.count, f1.len(), f2.len());
    assert forall|i: int| 0 <= i < f1.len() + f2.len() implies reports_packet(#[trigger] (first + second)[i], before.client, before.server, (f1 + f2)[i]) by {
        if i < f1.len() {
            assert((first + second)[i] == first[i]);
            assert((f1 + f2)[i] == f1[i]);
        } else {
            assert((first + second)[i] == second[i - f1.len()]);
            assert((f1 + f2)[i] == f2[i - f1.len()]);
        }
    }
}

} // verus!
