use bytes::BytesMut;
use l2companion::companion_capture::device::{default_device, find_device, parse_ipv4, parse_usize, NetworkInterface};
use l2companion::companion_capture::stream::{
    process_raw_frame, CaptureBuilder, ClientStream, PacketDirection, SessionMessage,
};
use l2companion::companion_protocol::packet::L2Packet as CompanionPacket;
use l2companion::endpoint::Endpoint;
use l2companion::session_stats::PacketTally;
use l2companion::sniffer_capture::{process_packet_data, SnifferBuilder};
use l2companion::sniffer_protocol::codec::L2FrameCodec;
use l2companion::sniffer_protocol::packet::L2Packet;

/// An Ethernet II frame carrying IPv4 and TCP with the given flags and
/// payload.
fn tcp_frame(src: ([u8; 4], u16), dst: ([u8; 4], u16), flags: u8, payload: &[u8]) -> Vec<u8> {
    let mut f = vec![0u8; 12];
    f.extend_from_slice(&[0x08, 0x00]);
    let mut ip = vec![0x45u8, 0, 0, 0, 0, 0, 0, 0, 64, 6, 0, 0];
    ip.extend_from_slice(&src.0);
    ip.extend_from_slice(&dst.0);
    f.extend_from_slice(&ip);
    let mut tcp = Vec::new();
    tcp.extend_from_slice(&src.1.to_be_bytes());
    tcp.extend_from_slice(&dst.1.to_be_bytes());
    tcp.extend_from_slice(&[0u8; 8]);
    tcp.push(0x50);
    tcp.push(flags);
    tcp.extend_from_slice(&[0u8; 6]);
    f.extend_from_slice(&tcp);
    f.extend_from_slice(payload);
    f
}

const CLIENT: ([u8; 4], u16) = ([192, 168, 1, 50], 60001);
const SERVER: ([u8; 4], u16) = ([10, 0, 0, 1], 7777);

fn client_ep() -> Endpoint {
    Endpoint::new(192, 168, 1, 50, 60001)
}

fn server_ep() -> Endpoint {
    Endpoint::new(10, 0, 0, 1, 7777)
}

fn move_frame(object_id: u32, x: i32, y: i32, z: i32) -> Vec<u8> {
    let mut body = vec![0x01u8];
    body.extend_from_slice(&object_id.to_le_bytes());
    body.extend_from_slice(&x.to_le_bytes());
    body.extend_from_slice(&y.to_le_bytes());
    body.extend_from_slice(&z.to_le_bytes());
    let mut frame = ((body.len() + 2) as u16).to_le_bytes().to_vec();
    frame.extend_from_slice(&body);
    frame
}

#[test]
fn new_client_is_announced() {
    let mut streams: Vec<ClientStream> = Vec::new();
    let raw = tcp_frame(CLIENT, SERVER, 0x02, &[]);
    let msgs = process_raw_frame(&raw, &[7777, 2106], &mut streams);
    assert_eq!(msgs.len(), 1);
    match &msgs[0] {
        SessionMessage::ClientConnected { client_addr, server_addr } => {
            assert_eq!(*client_addr, client_ep());
            assert_eq!(*server_addr, server_ep());
        }
        other => panic!("unexpected {:?}", other),
    }
    assert_eq!(streams.len(), 1);
    assert_eq!(streams[0].client_addr, client_ep());
    assert_eq!(streams[0].packet_count, 0);
}

#[test]
fn server_payload_is_framed_and_parsed() {
    let mut streams: Vec<ClientStream> = Vec::new();
    let ports = [7777u16];
    let frame = move_frame(1001, 10, -20, 30);
    let (first, second) = frame.split_at(7);
    let raw = tcp_frame(SERVER, CLIENT, 0x18, first);
    let msgs = process_raw_frame(&raw, &ports, &mut streams);
    assert_eq!(msgs.len(), 1);
    assert!(matches!(msgs[0], SessionMessage::ClientConnected { .. }));
    assert_eq!(streams[0].rx_buffer.len(), 7);

    let raw = tcp_frame(SERVER, CLIENT, 0x18, second);
    let msgs = process_raw_frame(&raw, &ports, &mut streams);
    assert_eq!(msgs.len(), 1);
    match &msgs[0] {
        SessionMessage::Packet(sp) => {
            assert_eq!(sp.client_addr, client_ep());
            assert_eq!(sp.server_addr, server_ep());
            assert_eq!(sp.direction, PacketDirection::ServerToClient);
            match &sp.packet {
                CompanionPacket::MoveToLocation(mv) => {
                    assert_eq!(mv.object_id, 1001);
                    assert_eq!(mv.target_x, 10);
                    assert_eq!(mv.target_y, -20);
                    assert_eq!(mv.target_z, 30);
                    assert_eq!(mv.origin_x, 0);
                }
                other => panic!("unexpected {:?}", other),
            }
        }
        other => panic!("unexpected {:?}", other),
    }
    assert_eq!(streams[0].packet_count, 1);
    assert_eq!(streams[0].rx_buffer.len(), 0);
}

#[test]
fn client_payload_is_not_parsed() {
    let mut streams: Vec<ClientStream> = Vec::new();
    let raw = tcp_frame(CLIENT, SERVER, 0x18, &move_frame(1, 2, 3, 4));
    let msgs = process_raw_frame(&raw, &[7777], &mut streams);
    assert_eq!(msgs.len(), 1);
    assert!(matches!(msgs[0], SessionMessage::ClientConnected { .. }));
    assert_eq!(streams[0].rx_buffer.len(), 0);
}

#[test]
fn fin_and_rst_close_known_clients() {
    let mut streams: Vec<ClientStream> = Vec::new();
    let ports = [7777u16];
    process_raw_frame(&tcp_frame(CLIENT, SERVER, 0x02, &[]), &ports, &mut streams);
    let msgs = process_raw_frame(&tcp_frame(CLIENT, SERVER, 0x11, &[]), &ports, &mut streams);
    assert_eq!(msgs.len(), 1);
    match &msgs[0] {
        SessionMessage::ClientDisconnected { client_addr, reason } => {
            assert_eq!(*client_addr, client_ep());
            assert_eq!(reason, "Connection closed (FIN)");
        }
        other => panic!("unexpected {:?}", other),
    }
    assert!(streams.is_empty());

    process_raw_frame(&tcp_frame(CLIENT, SERVER, 0x02, &[]), &ports, &mut streams);
    let msgs = process_raw_frame(&tcp_frame(SERVER, CLIENT, 0x04, &[]), &ports, &mut streams);
    match &msgs[0] {
        SessionMessage::ClientDisconnected { reason, .. } => assert_eq!(reason, "Connection reset (RST)"),
        other => panic!("unexpected {:?}", other),
    }
    assert!(streams.is_empty());
}

#[test]
fn fin_of_unknown_client_opens_stream() {
    let mut streams: Vec<ClientStream> = Vec::new();
    let msgs = process_raw_frame(&tcp_frame(CLIENT, SERVER, 0x01, &[]), &[7777], &mut streams);
    assert_eq!(msgs.len(), 1);
    assert!(matches!(msgs[0], SessionMessage::ClientConnected { .. }));
    assert_eq!(streams.len(), 1);
}

#[test]
fn other_traffic_is_ignored() {
    let mut streams: Vec<ClientStream> = Vec::new();
    let raw = tcp_frame(([1, 2, 3, 4], 5000), ([5, 6, 7, 8], 80), 0x02, &[]);
    assert!(process_raw_frame(&raw, &[7777, 2106], &mut streams).is_empty());
    let mut udp = tcp_frame(CLIENT, SERVER, 0x02, &[]);
    udp[23] = 17;
    assert!(process_raw_frame(&udp, &[7777], &mut streams).is_empty());
    let short = vec![0u8; 53];
    assert!(process_raw_frame(&short, &[7777], &mut streams).is_empty());
    assert!(streams.is_empty());
}

#[test]
fn two_clients_get_their_own_streams() {
    let mut streams: Vec<ClientStream> = Vec::new();
    let other = ([192, 168, 1, 51], 60002);
    process_raw_frame(&tcp_frame(CLIENT, SERVER, 0x02, &[]), &[7777], &mut streams);
    process_raw_frame(&tcp_frame(other, SERVER, 0x02, &[]), &[7777], &mut streams);
    process_raw_frame(&tcp_frame(CLIENT, SERVER, 0x10, &[]), &[7777], &mut streams);
    assert_eq!(streams.len(), 2);
    assert_eq!(streams[1].client_addr, Endpoint::new(192, 168, 1, 51, 60002));
}

#[test]
fn client_stream_counts_packets() {
    let mut s = ClientStream::new(client_ep(), server_ep());
    let mut bytes = move_frame(1, 1, 1, 1);
    bytes.extend_from_slice(&[0x02, 0x00]);
    bytes.extend_from_slice(&move_frame(2, 2, 2, 2));
    let msgs = s.ingest_server_payload(&bytes);
    assert_eq!(msgs.len(), 2);
    assert_eq!(s.packet_count, 2);
}

#[test]
fn capture_builder_defaults_and_overrides() {
    let b = CaptureBuilder::new();
    assert_eq!(b.ports(), &vec![7777u16, 2106]);
    assert_eq!(b.bpf_filter(), "tcp port 7777 or tcp port 2106");
    assert_eq!(b.settings(), (65535, true, 1000));
    assert!(b.device_name().is_none());
    let b = b.device("eth0".to_string()).game_ports(vec![7778]).filter("tcp".to_string()).pcap_file("c.pcap".to_string());
    assert_eq!(b.device_name(), Some(&"eth0".to_string()));
    assert_eq!(b.capture_file(), Some(&"c.pcap".to_string()));
    assert_eq!(b.ports(), &vec![7778u16]);
    assert_eq!(b.bpf_filter(), "tcp");
}

#[test]
fn sniffer_builder_defaults_and_overrides() {
    let b = SnifferBuilder::default();
    assert_eq!(b.bpf_filter(), "tcp port 7777 or tcp port 2106");
    assert_eq!(b.settings(), (65535, true, 1000));
    let b = b.device("lo".to_string()).pcap_file("x.pcapng".to_string()).filter("tcp port 1".to_string());
    assert_eq!(b.device_name(), Some(&"lo".to_string()));
    assert_eq!(b.capture_file(), Some(&"x.pcapng".to_string()));
    assert_eq!(b.bpf_filter(), "tcp port 1");
}

#[test]
fn sniffer_frame_payload_is_parsed() {
    let mut buf = BytesMut::new();
    let mut codec = L2FrameCodec::default();
    let mut body = vec![0x99u8, 1, 2];
    let mut frame = ((body.len() + 2) as u16).to_le_bytes().to_vec();
    frame.append(&mut body);
    let raw = tcp_frame(SERVER, CLIENT, 0x18, &frame);
    let packets = process_packet_data(&raw, &mut buf, &mut codec);
    assert_eq!(packets.len(), 1);
    assert_eq!(packets[0], L2Packet::Raw { opcode: 0x99, payload: vec![1, 2] });
    assert!(buf.is_empty());
}

fn iface(name: &str, desc: Option<&str>, addrs: &[&str]) -> NetworkInterface {
    NetworkInterface {
        name: name.to_string(),
        description: desc.map(|d| d.to_string()),
        addresses: addrs.iter().map(|a| a.to_string()).collect(),
    }
}

fn devices() -> Vec<NetworkInterface> {
    vec![
        iface("lo", Some("Loopback"), &["127.0.0.1"]),
        iface("\\Device\\NPF_{A}", Some("Intel(R) Wi-Fi 6 AX201"), &["fe80::1", "192.168.0.12"]),
        iface("eth1", None, &["169.254.3.4", "8.8.4.4"]),
    ]
}

#[test]
fn find_device_by_index_name_address_description() {
    let d = devices();
    assert_eq!(find_device(&d, "2").unwrap().name, "\\Device\\NPF_{A}");
    assert_eq!(find_device(&d, "ETH1").unwrap().name, "eth1");
    assert_eq!(find_device(&d, "8.8.4").unwrap().name, "eth1");
    assert_eq!(find_device(&d, "wi-fi").unwrap().name, "\\Device\\NPF_{A}");
    assert_eq!(find_device(&d, "4").unwrap().name, "eth1");
    assert!(find_device(&d, "nothing").is_none());
}

#[test]
fn default_device_prefers_private_then_routable() {
    let d = devices();
    assert_eq!(default_device(&d).unwrap().name, "\\Device\\NPF_{A}");
    let d = vec![devices().remove(0), devices().remove(2)];
    assert_eq!(default_device(&d).unwrap().name, "eth1");
    let d = vec![devices().remove(0)];
    assert_eq!(default_device(&d).unwrap().name, "lo");
    assert!(default_device(&Vec::new()).is_none());
}

#[test]
fn ipv4_text_parsing() {
    assert_eq!(parse_ipv4("192.168.0.12"), Some([192, 168, 0, 12]));
    assert_eq!(parse_ipv4("0.0.0.0"), Some([0, 0, 0, 0]));
    assert_eq!(parse_ipv4("256.1.1.1"), None);
    assert_eq!(parse_ipv4("01.1.1.1"), None);
    assert_eq!(parse_ipv4("1.1.1"), None);
    assert_eq!(parse_ipv4("1.1.1.1.1"), None);
    assert_eq!(parse_ipv4("fe80::1"), None);
    assert_eq!(parse_ipv4(""), None);
}

#[test]
fn usize_text_parsing() {
    assert_eq!(parse_usize("42"), Some(42));
    assert_eq!(parse_usize("+7"), Some(7));
    assert_eq!(parse_usize("+"), None);
    assert_eq!(parse_usize("-1"), None);
    assert_eq!(parse_usize("99999999999999999999999"), None);
}

#[test]
fn packet_tally_ranks_clients() {
    let a = Endpoint::new(1, 1, 1, 1, 1);
    let b = Endpoint::new(2, 2, 2, 2, 2);
    let c = Endpoint::new(3, 3, 3, 3, 3);
    let mut t = PacketTally::new();
    t.record(a);
    t.record(b);
    t.record(b);
    t.record(c);
    t.record(b);
    t.record(c);
    assert_eq!(t.total(), 6);
    assert_eq!(t.client_count(), 3);
    assert_eq!(t.ranking(), vec![(b, 3), (c, 2), (a, 1)]);
}
