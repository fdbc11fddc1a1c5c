use tap_tcp::eth::arp::{parse_arp, ArpPacket};
use tap_tcp::eth::ethernet::parse_ethernet_frame;
use tap_tcp::icmp::icmp::{parse_icmp, serialize_icmp_header, IcmpHeader};
use tap_tcp::ip::ip::{parse_ipv4, serialize_ipv4_header, Ipv4Header, Ipv4HeaderFields};
use tap_tcp::tcp::send::create_packet;
use tap_tcp::tcp::tcp::{
    check_flags, parse_tcp, serialize_tcp_header, tcp_flag_label, TCPHeader, TCPPacket, TcpFlag,
    ACK, FIN, PSH, RST, SYN, URG,
};
use tap_tcp::udp::udp::{create_udp_packet, parse_udp, serialize_udp_header, UDPHeader, UDPPacket};

fn fields(total_length: u16) -> Ipv4HeaderFields {
    Ipv4HeaderFields {
        version: 4,
        ihl: 5,
        tos: 0x10,
        total_length,
        identification: 0xbeef,
        flags: 2,
        fragment_offset: 0x0123,
        ttl: 64,
        protocol: 6,
        source: [10, 0, 0, 1],
        destination: [10, 0, 0, 2],
    }
}

#[test]
fn ethernet_frame_fields() {
    let mut buf = vec![1, 2, 3, 4, 5, 6, 7, 8, 9, 10, 11, 12, 0x08, 0x06];
    buf.extend_from_slice(&[0xaa, 0xbb]);
    let f = parse_ethernet_frame(&buf);
    assert_eq!(f.dst_mac, [1, 2, 3, 4, 5, 6]);
    assert_eq!(f.src_mac, [7, 8, 9, 10, 11, 12]);
    assert_eq!(f.ether_type, 0x0806);
    assert_eq!(f.payload, vec![0xaa, 0xbb]);
}

#[test]
fn ethernet_header_only_has_empty_payload() {
    let buf = [0u8; 14];
    assert!(parse_ethernet_frame(&buf).payload.is_empty());
}

#[test]
fn ipv4_header_serializes_in_network_order() {
    let h = Ipv4Header { fields: fields(24), header_checksum: 0x1234 };
    let bytes = serialize_ipv4_header(&h);
    assert_eq!(
        bytes,
        vec![
            0x45, 0x10, 0x00, 24, 0xbe, 0xef, 0x41, 0x23, 64, 6, 0x12, 0x34, 10, 0, 0, 1, 10, 0, 0,
            2
        ]
    );
}

#[test]
fn ipv4_roundtrip_with_payload() {
    let h = Ipv4Header { fields: fields(24), header_checksum: 0x1234 };
    let mut bytes = serialize_ipv4_header(&h);
    bytes.extend_from_slice(&[9, 8, 7, 6]);
    bytes.extend_from_slice(&[0xff, 0xff]); // beyond the total length
    let p = parse_ipv4(&bytes).expect("parses");
    assert_eq!(p.header, h);
    assert_eq!(p.payload, vec![9, 8, 7, 6]);
}

#[test]
fn ipv4_with_options_skips_them() {
    let mut f = fields(28);
    f.ihl = 6;
    let h = Ipv4Header { fields: f, header_checksum: 0 };
    let mut bytes = serialize_ipv4_header(&h);
    bytes.extend_from_slice(&[0, 0, 0, 0, 1, 2, 3, 4]);
    let p = parse_ipv4(&bytes).expect("parses");
    assert_eq!(p.header.fields.ihl, 6);
    assert_eq!(p.payload, vec![1, 2, 3, 4]);
}

#[test]
fn ipv4_refusals() {
    let good = serialize_ipv4_header(&Ipv4Header { fields: fields(20), header_checksum: 0 });
    assert!(parse_ipv4(&good).is_some());
    assert!(parse_ipv4(&good[..19]).is_none());
    let mut v6 = good.clone();
    v6[0] = 0x65;
    assert!(parse_ipv4(&v6).is_none());
    let mut short_ihl = good.clone();
    short_ihl[0] = 0x44;
    assert!(parse_ipv4(&short_ihl).is_none());
    let mut long_ihl = good.clone();
    long_ihl[0] = 0x4f;
    assert!(parse_ipv4(&long_ihl).is_none());
    let mut small_total = good.clone();
    small_total[3] = 19;
    assert!(parse_ipv4(&small_total).is_none());
    let mut big_total = good.clone();
    big_total[3] = 21;
    assert!(parse_ipv4(&big_total).is_none());
}

#[test]
fn arp_parse_reads_all_fields() {
    let buf = [
        0x00, 0x01, 0x08, 0x00, 6, 4, 0x00, 0x01, 1, 2, 3, 4, 5, 6, 10, 0, 0, 1, 0, 0, 0, 0, 0, 0,
        10, 0, 0, 2,
    ];
    let a = parse_arp(&buf).expect("parses");
    assert_eq!(
        a,
        ArpPacket {
            hardware_type: 1,
            protocol_type: 0x0800,
            hardware_size: 6,
            protocol_size: 4,
            opcode: 1,
            sender_mac: [1, 2, 3, 4, 5, 6],
            sender_ip: [10, 0, 0, 1],
            target_mac: [0; 6],
            target_ip: [10, 0, 0, 2],
        }
    );
    assert!(parse_arp(&buf[..27]).is_none());
}

#[test]
fn icmp_roundtrip_and_refusal() {
    let h = IcmpHeader { icmp_type: 8, code: 0, checksum: 0x1234, extended_header: 0x0042_0007 };
    let mut bytes = serialize_icmp_header(&h);
    assert_eq!(bytes, vec![8, 0, 0x12, 0x34, 0x00, 0x42, 0x00, 0x07]);
    bytes.extend_from_slice(b"ping");
    let p = parse_icmp(&bytes).expect("parses");
    assert_eq!(p.fields, h);
    assert_eq!(p.payload, b"ping".to_vec());
    assert_eq!(p.fields.identifier(), 0x42);
    assert_eq!(p.fields.sequence(), 7);
    assert!(parse_icmp(&bytes[..7]).is_none());
}

#[test]
fn tcp_parse_reads_offset_in_bytes() {
    let h = TCPHeader {
        src_port: 40000,
        dst_port: 8080,
        seq_num: 0x0102_0304,
        ack_num: 0xa0b0_c0d0,
        data_offset: 5,
        flags: SYN | ACK | 0x100,
        window: 1024,
        checksum: 0x5555,
        urgent_ptr: 7,
    };
    let mut bytes = serialize_tcp_header(&h);
    assert_eq!(bytes[12], 0x51);
    assert_eq!(bytes[13], 0x12);
    bytes.extend_from_slice(b"data");
    let p = parse_tcp(&bytes).expect("parses");
    assert_eq!(p.header, TCPHeader { data_offset: 20, ..h });
    assert_eq!(p.payload, b"data".to_vec());
}

#[test]
fn tcp_refusals() {
    let h = TCPHeader {
        src_port: 1,
        dst_port: 2,
        seq_num: 3,
        ack_num: 4,
        data_offset: 6,
        flags: 0,
        window: 0,
        checksum: 0,
        urgent_ptr: 0,
    };
    let bytes = serialize_tcp_header(&h);
    assert!(parse_tcp(&bytes[..19]).is_none());
    // A 24-byte header announced in 20 bytes.
    assert!(parse_tcp(&bytes).is_none());
    let mut longer = bytes.clone();
    longer.extend_from_slice(&[0, 0, 0, 0]);
    let p = parse_tcp(&longer).expect("parses");
    assert_eq!(p.header.data_offset, 24);
    assert!(p.payload.is_empty());
}

#[test]
fn check_flags_tests_any_bit() {
    assert!(check_flags(&(SYN | ACK), SYN));
    assert!(!check_flags(&SYN, ACK));
    assert!(check_flags(&RST, RST | FIN));
    assert!(!check_flags(&0, URG | PSH));
}

#[test]
fn flag_labels() {
    let names = |f: u16| -> String {
        tcp_flag_label(f).iter().map(|x| x.name()).collect::<Vec<_>>().join("-")
    };
    assert_eq!(names(SYN), "SYN");
    assert_eq!(names(SYN | ACK), "SYN-ACK");
    assert_eq!(names(ACK), "ACK");
    assert_eq!(names(FIN), "FIN");
    assert_eq!(names(FIN | ACK), "FIN-ACK");
    assert_eq!(names(RST), "RST");
    assert_eq!(names(PSH | ACK), "PSH-ACK");
    assert_eq!(names(URG | ACK | RST), "URG-ACK-RST");
    assert_eq!(names(0x100 | SYN), "SYN");
    assert_eq!(names(0), "");
    assert_eq!(tcp_flag_label(RST | SYN), vec![TcpFlag::Rst, TcpFlag::Syn]);
}

#[test]
fn create_packet_concatenates_headers_and_payload() {
    let ip = Ipv4Header { fields: fields(44), header_checksum: 0x0102 };
    let tcp = TCPPacket {
        header: TCPHeader {
            src_port: 1,
            dst_port: 2,
            seq_num: 3,
            ack_num: 4,
            data_offset: 5,
            flags: ACK,
            window: 5,
            checksum: 6,
            urgent_ptr: 0,
        },
        payload: vec![0xde, 0xad, 0xbe, 0xef],
    };
    let bytes = create_packet(&tcp, &ip);
    let mut expected = serialize_ipv4_header(&ip);
    expected.extend_from_slice(&serialize_tcp_header(&tcp.header));
    expected.extend_from_slice(&tcp.payload);
    assert_eq!(bytes, expected);
    let p = parse_ipv4(&bytes).expect("ip parses");
    let t = parse_tcp(&p.payload).expect("tcp parses");
    assert_eq!(t.payload, tcp.payload);
}

#[test]
fn udp_parse_serialize_and_packet() {
    let h = UDPHeader { src_port: 5000, dst_port: 9000, length: 10 };
    assert_eq!(serialize_udp_header(&h), vec![0x13, 0x88, 0x23, 0x28, 0x00, 0x0a]);
    let u = UDPPacket { header: h, checksum: 0xabcd, payload: vec![1, 2] };
    let ip = Ipv4Header { fields: Ipv4HeaderFields { protocol: 17, ..fields(30) }, header_checksum: 0 };
    let bytes = create_udp_packet(&u, &ip);
    assert_eq!(bytes.len(), 30);
    let p = parse_ipv4(&bytes).expect("ip parses");
    let back = parse_udp(&p.payload).expect("udp parses");
    assert_eq!(back, u);
    assert!(parse_udp(&p.payload[..7]).is_none());
}
