//! Capture configuration and the per-frame work of the sniffer: locating the
//! TCP payload in a captured Ethernet frame, buffering it, and parsing every
//! complete game packet.

use vstd::prelude::*;
use bytes::BytesMut;
use crate::byte_buffer::{buffer_bytes, buffer_extend};
use crate::sniffer_protocol::codec::{decode_step, L2FrameCodec};
use crate::sniffer_protocol::packet::{server_view, L2Packet, PacketView};

verus! {

/// How to open a capture.
pub struct SnifferBuilder {
    device_name: Option<String>,
    pcap_file: Option<String>,
    bpf_filter: String,
    snaplen: i32,
    promiscuous: bool,
    timeout_ms: i32,
}

/// The capture filter used unless another is given.
pub open spec fn default_filter() -> Seq<char> {
    "tcp port 7777 or tcp port 2106"@
}

impl SnifferBuilder {
    /// The interface to capture on, if one was named.
    pub closed spec fn device_spec(&self) -> Option<Seq<char>> {
        match self.device_name {
            Some(d) => Some(d@),
            None => None,
        }
    }

    /// The capture file to read, if one was named.
    pub closed spec fn file_spec(&self) -> Option<Seq<char>> {
        match self.pcap_file {
            Some(d) => Some(d@),
            None => None,
        }
    }

    /// The capture filter.
    pub closed spec fn filter_spec(&self) -> Seq<char> {
        self.bpf_filter@
    }

    /// Snapshot length, promiscuous mode and read timeout.
    pub closed spec fn live_settings(&self) -> (i32, bool, i32) {
        (self.snaplen, self.promiscuous, self.timeout_ms)
    }

    /// Live capture on the default interface with the game ports' filter, a
    /// 65535-byte snapshot, promiscuous mode and a one-second timeout.
    pub fn new() -> (b: Self)
        ensures
            b.device_spec() is None,
            b.file_spec() is None,
            b.filter_spec() == default_filter(),
            b.live_settings() == (65535i32, true, 1000i32),
    {
        SnifferBuilder {
            device_name: None,
            pcap_file: None,
            bpf_filter: "tcp port 7777 or tcp port 2106".to_owned(),
            snaplen: 65535,
            promiscuous: true,
            timeout_ms: 1000,
        }
    }

    /// Captures on the named interface.
    pub fn device(self, device: String) -> (b: Self)
        ensures
            b.device_spec() == Some(device@),
            b.file_spec() == self.file_spec(),
            b.filter_spec() == self.filter_spec(),
            b.live_settings() == self.live_settings(),
    {
        SnifferBuilder { device_name: Some(device), ..self }
    }

    /// Reads the named capture file instead of an interface.
    pub fn pcap_file(self, path: String) -> (b: Self)
        ensures
            b.file_spec() == Some(path@),
            b.device_spec() == self.device_spec(),
            b.filter_spec() == self.filter_spec(),
            b.live_settings() == self.live_settings(),
    {
        SnifferBuilder { pcap_file: Some(path), ..self }
    }

    /// Uses another capture filter.
    pub fn filter(self, filter: String) -> (b: Self)
        ensures
            b.filter_spec() == filter@,
            b.device_spec() == self.device_spec(),
            b.file_spec() == self.file_spec(),
            b.live_settings() == self.live_settings(),
    {
        SnifferBuilder { bpf_filter: filter, ..self }
    }

    /// The interface to capture on, if one was named.
    pub fn device_name(&self) -> (d: Option<&String>)
        ensures
            match d {
                Some(s) => self.device_spec() == Some(s@),
                None => self.device_spec() is None,
            },
    {
        match &self.device_name {
            Some(s) => Some(s),
            None => None,
        }
    }

    /// The capture file to read, if one was named.
    pub fn capture_file(&self) -> (d: Option<&String>)
        ensures
            match d {
                Some(s) => self.file_spec() == Some(s@),
                None => self.file_spec() is None,
            },
    {
        match &self.pcap_file {
            Some(s) => Some(s),
            None => None,
        }
    }

    /// The capture filter.
    pub fn bpf_filter(&self) -> (f: &String)
        ensures
            f@ == self.filter_spec(),
    {
        &self.bpf_filter
    }

    /// Snapshot length, promiscuous mode and read timeout in milliseconds.
    pub fn settings(&self) -> (r: (i32, bool, i32))
        ensures
            r == self.live_settings(),
    {
        (self.snaplen, self.promiscuous, self.timeout_ms)
    }
}

impl Default for SnifferBuilder {
    /// Same as [`SnifferBuilder::new`].
    fn default() -> (b: Self)
        ensures
            b.device_spec() is None,
            b.file_spec() is None,
            b.filter_spec() == default_filter(),
            b.live_settings() == (65535i32, true, 1000i32),
    {
        Self::new()
    }
}

/// Where the TCP payload starts in a captured frame: after the Ethernet,
/// IPv4 and TCP headers of an IPv4 frame longer than 54 bytes (54 when the
/// TCP header length lies beyond the frame), else at 0.
pub open spec fn payload_offset(raw: Seq<u8>) -> int {
    if raw.len() > 54 && raw[12] == 0x08 && raw[13] == 0x00 {
        let ihl = (raw[14] % 16) * 4;
        let t = 14 + ihl + 12;
        if raw.len() > t {
            14 + ihl + (raw[t] / 16) * 4
        } else {
            54
        }
    } else {
        0
    }
}

/// The game data of a captured IPv4 frame starts after its three headers:
/// 14 Ethernet bytes, 4 times the IPv4 IHL nibble, and 4 times the TCP
/// data-offset nibble, so TCP options are never taken for game data.
pub proof fn lemma_payload_after_headers(raw: Seq<u8>)
    requires
        raw.len() > 54,
        raw[12] == 0x08,
        raw[13] == 0x00,
        raw.len() > 14 + 4 * (raw[14] % 16) + 12,
    ensures
        ({
            let ip_end = 14 + 4 * (raw[14] % 16);
            payload_offset(raw) == ip_end + 4 * (raw[ip_end + 12] / 16)
        }),
{
}

/// The frames a buffer yields, decoding until a decode gives no frame or
/// fails, and what stays buffered.
pub open spec fn drain_frames(max: usize, buf: Seq<u8>) -> (Seq<Seq<u8>>, Seq<u8>)
    decreases buf.len(),
{
    let st = decode_step(max, buf);
    match st.0 {
        Ok(Some(frame)) => {
            if st.1.len() < buf.len() {
                let rest = drain_frames(max, st.1);
                (seq![frame] + rest.0, rest.1)
            } else {
                (seq![frame], st.1)
            }
        },
        _ => (seq![], buf),
    }
}

/// The packets of a sequence of frames: each non-empty frame is an opcode
/// followed by its payload.
pub open spec fn frame_packets(frames: Seq<Seq<u8>>) -> Seq<PacketView>
    decreases frames.len(),
{
    if frames.len() == 0 {
        seq![]
    } else {
        let f = frames[0];
        let rest = frame_packets(frames.drop_first());
        if f.len() == 0 { rest } else { seq![server_view(f[0], f.skip(1))] + rest }
    }
}

/// Views of a sequence of packets.
pub open spec fn packet_views(v: Seq<L2Packet>) -> Seq<PacketView> {
    v.map_values(|p: L2Packet| p@)
}

/// Appends the captured frame's TCP payload to `buf` and returns the packets
/// of every complete frame now buffered.
pub fn process_packet_data(raw: &[u8], buf: &mut BytesMut, codec: &mut L2FrameCodec) -> (packets: Vec<L2Packet>)
    requires
        buffer_bytes(*old(buf)).len() + raw@.len() <= isize::MAX,
    ensures
        final(codec).max_size() == old(codec).max_size(),
        ({
            let off = payload_offset(raw@);
            if raw@.len() > off {
                let d = drain_frames(old(codec).max_size(), buffer_bytes(*old(buf)) + raw@.skip(off));
                &&& packet_views(packets@) == frame_packets(d.0)
                &&& buffer_bytes(*final(buf)) == d.1
            } else {
                &&& packets@.len() == 0
                &&& buffer_bytes(*final(buf)) == buffer_bytes(*old(buf))
            }
        }),
{
    let n = raw.len();
    let payload_offset: usize = if n > 54 && raw[12] == 0x08 && raw[13] == 0x00 {
        let v = raw[14];
        assert((v & 0x0F) == v % 16) by (bit_vector);
        let ip_header_len = ((v & 0x0F) * 4) as usize;
        let tcp_offset_byte = 14 + ip_header_len + 12;
        if n > tcp_offset_byte {
            let b = raw[tcp_offset_byte];
            assert(((b >> 4) & 0x0F) == b / 16) by (bit_vector);
            let tcp_header_len = (((b >> 4) & 0x0F) * 4) as usize;
            14 + ip_header_len + tcp_header_len
        } else {
            54
        }
    } else {
        0
    };
    let mut packets: Vec<L2Packet> = Vec::new();
    if n > payload_offset {
        let payload = &raw[payload_offset..n];
        assert(payload@ =~= raw@.skip(payload_offset as int));
        buffer_extend(buf, payload);
        packets = drain_packets(buf, codec);
    }
    packets
}

/// Decodes and parses every complete frame in `buf`.
pub fn drain_packets(buf: &mut BytesMut, codec: &mut L2FrameCodec) -> (packets: Vec<L2Packet>)
    ensures
        final(codec).max_size() == old(codec).max_size(),
        ({
            let d = drain_frames(old(codec).max_size(), buffer_bytes(*old(buf)));
            &&& packet_views(packets@) == frame_packets(d.0)
            &&& buffer_bytes(*final(buf)) == d.1
        }),
{
    let ghost max = codec.max_size();
    let ghost start = buffer_bytes(*buf);
    let mut packets: Vec<L2Packet> = Vec::new();
    let ghost mut frames: Seq<Seq<u8>> = seq![];
    assert(packet_views(packets@) =~= frame_packets(frames));
    loop
        invariant_except_break
            codec.max_size() == max,
            max == old(codec).max_size(),
            start == buffer_bytes(*old(buf)),
            drain_frames(max, start).0 == frames + drain_frames(max, buffer_bytes(*buf)).0,
            drain_frames(max, start).1 == drain_frames(max, buffer_bytes(*buf)).1,
            packet_views(packets@) == frame_packets(frames),
        ensures
            codec.max_size() == max,
            max == old(codec).max_size(),
            start == buffer_bytes(*old(buf)),
            drain_frames(max, start).0 == frames,
            drain_frames(max, start).1 == buffer_bytes(*buf),
            packet_views(packets@) == frame_packets(frames),
        decreases buffer_bytes(*buf).len(),
    {
        let ghost before = buffer_bytes(*buf);
        match codec.decode(buf) {
            Ok(Some(frame)) => {
                proof {
                    lemma_frame_packets_push(frames, frame@);
                    assert(frames + (seq![frame@] + drain_frames(max, buffer_bytes(*buf)).0) =~= frames.push(frame@) + drain_frames(max, buffer_bytes(*buf)).0);
                    frames = frames.push(frame@);
                }
                let fl = frame.len();
                if fl > 0 {
                    let opcode = frame[0];
                    let body = &frame.as_slice()[1..fl];
                    assert(body@ =~= frame@.skip(1));
                    let p = L2Packet::parse(opcode, body);
                    let ghost prev = packets@;
                    packets.push(p);
                    assert(packet_views(packets@) =~= packet_views(prev) + seq![p@]);
                }
            },
            _ => {
                assert(frames + Seq::<Seq<u8>>::empty() =~= frames);
                break;
            },
        }
    }
    packets
}

/// Appending a frame to a sequence of frames appends its packet, if any.
proof fn lemma_frame_packets_push(frames: Seq<Seq<u8>>, f: Seq<u8>)
    ensures
        frame_packets(frames.push(f)) == frame_packets(frames) + (if f.len() == 0 {
            Seq::<PacketView>::empty()
        } else {
            seq![server_view(f[0], f.skip(1))]
        }),
    decreases frames.len(),
{
    if frames.len() == 0 {
        assert(frames.push(f).drop_first() =~= Seq::<Seq<u8>>::empty());
        assert(frame_packets(Seq::<Seq<u8>>::empty()) =~= Seq::<PacketView>::empty());
    } else {
        assert(frames.push(f).drop_first() =~= frames.drop_first().push(f));
        lemma_frame_packets_push(frames.drop_first(), f);
        assert(frames.push(f)[0] == frames[0]);
    }
}

} // verus!

verus! {

/// A frame complete at the front of a buffer is decoded the same way when
/// more bytes follow, and those bytes stay behind it.
proof fn lemma_decode_step_extend(max: usize, x: Seq<u8>, y: Seq<u8>)
    requires
        decode_step(max, x).0 is Ok,
        decode_step(max, x).0->Ok_0 is Some,
    ensures
        decode_step(max, x + y).0 == decode_step(max, x).0,
        decode_step(max, x + y).1 == decode_step(max, x).1 + y,
        decode_step(max, x).1.len() < x.len(),
{
    let xy = x + y;
    assert(xy[0] == x[0] && xy[1] == x[1]);
    let length = crate::wire::le16(x, 0);
    assert(xy.subrange(2, length) =~= x.subrange(2, length));
    assert(xy.skip(length) =~= x.skip(length) + y);
}

/// Draining a stream delivered in two pieces gives the frames of the first
/// piece, then those of what stayed buffered followed by the second piece:
/// where the capture splits the stream does not change the frames.
pub proof fn lemma_drain_incremental(max: usize, x: Seq<u8>, y: Seq<u8>)
    ensures
        drain_frames(max, x + y) == (
            drain_frames(max, x).0 + drain_frames(max, drain_frames(max, x).1 + y).0,
            drain_frames(max, drain_frames(max, x).1 + y).1,
        ),
    decreases x.len(),
{
    let st = decode_step(max, x);
    match st.0 {
        Ok(Some(frame)) => {
            lemma_decode_step_extend(max, x, y);
            lemma_drain_incremental(max, st.1, y);
            assert(st.1 + y == decode_step(max, x + y).1);
            assert((x + y).len() > (st.1 + y).len());
            let rest = drain_frames(max, st.1);
            assert(drain_frames(max, x) == (seq![frame] + rest.0, rest.1));
            assert(seq![frame] + (rest.0 + drain_frames(max, rest.1 + y).0)
                =~= (seq![frame] + rest.0) + drain_frames(max, rest.1 + y).0);
        },
        _ => {
            assert(drain_frames(max, x) == (Seq::<Seq<u8>>::empty(), x));
            assert(Seq::<Seq<u8>>::empty() + drain_frames(max, x + y).0 =~= drain_frames(max, x + y).0);
        },
    }
}

} // verus!
