use tap_tcp::checksum::checksum::{checksum, ip_checksum_verifier};
use tap_tcp::eth::arp::{arp_reply_frame, arp_response, parse_arp, ArpPacket, MY_MAC};
use tap_tcp::eth::ethernet::{frame_to, parse_ethernet_frame, EthernetFrame};
use tap_tcp::icmp::icmp::{icmp_echo_reply_frame, parse_icmp, IcmpHeader, IcmpPacket};
use tap_tcp::ip::ip::{parse_ipv4, Ipv4Header, Ipv4HeaderFields, Ipv4Packet, MY_IP};
use tap_tcp::tcp::send::{ack_frame, rst_frame, syn_ack_frame};
use tap_tcp::tcp::tcp::{parse_tcp, TCPHeader, ACK, RST, SYN};
use tap_tcp::udp::quote::{get_quote_frame, quote_reply_frame, quotes};
use tap_tcp::udp::udp::{parse_udp, UDPHeader, UDPPacket};

const PEER_MAC: [u8; 6] = [0x02, 0, 0, 0, 0, 0x01];
const PEER_IP: [u8; 4] = [10, 0, 0, 1];

fn peer_frame(ether_type: u16) -> EthernetFrame {
    EthernetFrame { dst_mac: MY_MAC, src_mac: PEER_MAC, ether_type, payload: vec![] }
}

fn peer_ip(protocol: u8) -> Ipv4HeaderFields {
    Ipv4HeaderFields {
        version: 4,
        ihl: 5,
        tos: 0,
        total_length: 0,
        identification: 7,
        flags: 0,
        fragment_offset: 0,
        ttl: 63,
        protocol,
        source: PEER_IP,
        destination: MY_IP,
    }
}

fn request() -> ArpPacket {
    ArpPacket {
        hardware_type: 1,
        protocol_type: 0x0800,
        hardware_size: 6,
        protocol_size: 4,
        opcode: 1,
        sender_mac: PEER_MAC,
        sender_ip: PEER_IP,
        target_mac: [0; 6],
        target_ip: MY_IP,
    }
}

#[test]
fn arp_reply_answers_requester() {
    let frame = arp_reply_frame(&request());
    assert_eq!(frame.len(), 42);
    let eth = parse_ethernet_frame(&frame);
    assert_eq!(eth.dst_mac, PEER_MAC);
    assert_eq!(eth.src_mac, MY_MAC);
    assert_eq!(eth.ether_type, 0x0806);
    let reply = parse_arp(&eth.payload).expect("parses");
    assert_eq!(reply.opcode, 2);
    assert_eq!(reply.hardware_type, 1);
    assert_eq!(reply.protocol_type, 0x0800);
    assert_eq!(reply.sender_mac, MY_MAC);
    assert_eq!(reply.sender_ip, MY_IP);
    assert_eq!(reply.target_mac, PEER_MAC);
    assert_eq!(reply.target_ip, PEER_IP);
}

#[test]
fn arp_response_only_for_requests_for_me() {
    assert_eq!(arp_response(&request()), Some(arp_reply_frame(&request())));
    let other = ArpPacket { target_ip: [10, 0, 0, 3], ..request() };
    assert!(arp_response(&other).is_none());
    let reply = ArpPacket { opcode: 2, ..request() };
    assert!(arp_response(&reply).is_none());
}

#[test]
fn frame_to_prefixes_ethernet_header() {
    let f = frame_to(&PEER_MAC, 0x0800, &[1, 2]);
    let mut expected = PEER_MAC.to_vec();
    expected.extend_from_slice(&MY_MAC);
    expected.extend_from_slice(&[0x08, 0x00, 1, 2]);
    assert_eq!(f, expected);
}

#[test]
fn echo_reply_mirrors_request() {
    let eth = peer_frame(0x0800);
    let ipv4 = Ipv4Packet { header: Ipv4Header { fields: peer_ip(1), header_checksum: 0 }, payload: vec![] };
    let icmp = IcmpPacket {
        fields: IcmpHeader { icmp_type: 8, code: 0, checksum: 0, extended_header: 0x1234_0001 },
        payload: b"abcdefg".to_vec(),
    };
    let frame = icmp_echo_reply_frame(&eth, &ipv4, &icmp);
    let e = parse_ethernet_frame(&frame);
    assert_eq!(e.dst_mac, PEER_MAC);
    assert_eq!(e.src_mac, MY_MAC);
    assert_eq!(e.ether_type, 0x0800);
    let ip = parse_ipv4(&e.payload).expect("ip parses");
    assert!(ip_checksum_verifier(&ip.header));
    assert_eq!(ip.header.fields.total_length, 20 + 8 + 7);
    assert_eq!(ip.header.fields.protocol, 1);
    assert_eq!(ip.header.fields.ttl, 64);
    assert_eq!(ip.header.fields.source, MY_IP);
    assert_eq!(ip.header.fields.destination, PEER_IP);
    assert_eq!(checksum(&ip.payload), 0);
    let reply = parse_icmp(&ip.payload).expect("icmp parses");
    assert_eq!(reply.fields.icmp_type, 0);
    assert_eq!(reply.fields.code, 0);
    assert_eq!(reply.fields.extended_header, 0x1234_0001);
    assert_eq!(reply.payload, b"abcdefg".to_vec());
}

fn received(flags: u16, seq: u32, ack: u32) -> TCPHeader {
    TCPHeader {
        src_port: 40000,
        dst_port: 8080,
        seq_num: seq,
        ack_num: ack,
        data_offset: 20,
        flags,
        window: 500,
        checksum: 0x9999,
        urgent_ptr: 0,
    }
}

fn tcp_reply(frame: &[u8]) -> (Ipv4Packet, TCPHeader) {
    let e = parse_ethernet_frame(frame);
    assert_eq!(e.dst_mac, PEER_MAC);
    assert_eq!(e.ether_type, 0x0800);
    let ip = parse_ipv4(&e.payload).expect("ip parses");
    assert!(ip_checksum_verifier(&ip.header));
    assert_eq!(ip.header.fields.total_length, 40);
    assert_eq!(ip.header.fields.source, MY_IP);
    assert_eq!(ip.header.fields.destination, PEER_IP);
    let mut pseudo = Vec::new();
    pseudo.extend_from_slice(&MY_IP);
    pseudo.extend_from_slice(&PEER_IP);
    pseudo.extend_from_slice(&[0, 6, 0, 20]);
    pseudo.extend_from_slice(&ip.payload);
    assert_eq!(checksum(&pseudo), 0);
    let t = parse_tcp(&ip.payload).expect("tcp parses");
    assert!(t.payload.is_empty());
    (ip, t.header)
}

#[test]
fn rst_acknowledges_one_past_received_sequence() {
    let eth = peer_frame(0x0800);
    let frame = rst_frame(&peer_ip(6), &received(ACK, u32::MAX, 77), &eth);
    let (_, h) = tcp_reply(&frame);
    assert_eq!(h.flags, RST);
    assert_eq!(h.src_port, 8080);
    assert_eq!(h.dst_port, 40000);
    assert_eq!(h.seq_num, 77);
    assert_eq!(h.ack_num, 0);
    assert_eq!(h.window, 0);
    assert_eq!(h.data_offset, 20);
}

#[test]
fn syn_ack_starts_at_given_sequence() {
    let eth = peer_frame(0x0800);
    let frame = syn_ack_frame(&peer_ip(6), &received(SYN, 1000, 0), &eth, 5555);
    let (_, h) = tcp_reply(&frame);
    assert_eq!(h.flags, SYN | ACK);
    assert_eq!(h.seq_num, 5555);
    assert_eq!(h.ack_num, 1001);
    assert_eq!(h.window, 64240);
}

#[test]
fn ack_carries_given_numbers() {
    let eth = peer_frame(0x0800);
    let frame = ack_frame(&peer_ip(6), &received(ACK, 1, 2), &eth, 300, 400);
    let (_, h) = tcp_reply(&frame);
    assert_eq!(h.flags, ACK);
    assert_eq!(h.seq_num, 300);
    assert_eq!(h.ack_num, 400);
    assert_eq!(h.window, 64240);
}

fn udp_request(payload: Vec<u8>) -> UDPPacket {
    UDPPacket { header: UDPHeader { src_port: 5000, dst_port: 9999, length: 9 }, checksum: 0, payload }
}

fn check_quote_frame(frame: &[u8], text: &str) {
    let e = parse_ethernet_frame(frame);
    assert_eq!(e.dst_mac, PEER_MAC);
    let ip = parse_ipv4(&e.payload).expect("ip parses");
    assert!(ip_checksum_verifier(&ip.header));
    assert_eq!(ip.header.fields.protocol, 17);
    assert_eq!(ip.header.fields.total_length as usize, 28 + text.len());
    let u = parse_udp(&ip.payload).expect("udp parses");
    assert_eq!(u.header.src_port, 9999);
    assert_eq!(u.header.dst_port, 5000);
    assert_eq!(u.header.length as usize, 8 + text.len());
    assert_eq!(u.payload, text.as_bytes().to_vec());
    let mut pseudo = Vec::new();
    pseudo.extend_from_slice(&MY_IP);
    pseudo.extend_from_slice(&PEER_IP);
    pseudo.extend_from_slice(&[0, 17]);
    pseudo.extend_from_slice(&u.header.length.to_be_bytes());
    pseudo.extend_from_slice(&ip.payload);
    assert_eq!(checksum(&pseudo), 0);
}

#[test]
fn quote_reply_with_given_text() {
    let eth = peer_frame(0x0800);
    let ipv4 = Ipv4Packet { header: Ipv4Header { fields: peer_ip(17), header_checksum: 0 }, payload: vec![] };
    let frame = quote_reply_frame(&udp_request(vec![1]), &ipv4, &eth, "hi").expect("answered");
    check_quote_frame(&frame, "hi");
    assert!(quote_reply_frame(&udp_request(vec![2]), &ipv4, &eth, "hi").is_none());
    assert!(quote_reply_frame(&udp_request(vec![]), &ipv4, &eth, "hi").is_none());
}

#[test]
fn random_quote_is_one_of_the_list() {
    let eth = peer_frame(0x0800);
    let ipv4 = Ipv4Packet { header: Ipv4Header { fields: peer_ip(17), header_checksum: 0 }, payload: vec![] };
    let list = quotes();
    assert_eq!(list.len(), 10);
    for _ in 0..20 {
        let frame = get_quote_frame(&udp_request(vec![1, 0, 0]), &ipv4, &eth).expect("answered");
        let e = parse_ethernet_frame(&frame);
        let ip = parse_ipv4(&e.payload).expect("ip parses");
        let u = parse_udp(&ip.payload).expect("udp parses");
        let text = list.iter().find(|q| q.as_bytes() == u.payload.as_slice()).expect("a listed quote");
        check_quote_frame(&frame, text);
    }
    assert!(get_quote_frame(&udp_request(vec![0]), &ipv4, &eth).is_none());
    assert!(get_quote_frame(&udp_request(vec![]), &ipv4, &eth).is_none());
}
