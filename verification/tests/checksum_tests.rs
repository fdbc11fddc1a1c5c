use tap_tcp::checksum::checksum::{
    checksum, icmp_checksum_verifier, ip_checksum, ip_checksum_verifier, tcp_checksum,
    udp_checksum,
};
use tap_tcp::icmp::icmp::IcmpHeader;
use tap_tcp::ip::ip::{serialize_ipv4_header, Ipv4Header, Ipv4HeaderFields};
use tap_tcp::tcp::tcp::{serialize_tcp_header, TCPHeader, TCPPacket};
use tap_tcp::udp::udp::{UDPHeader, UDPPacket};

fn sample_fields() -> Ipv4HeaderFields {
    Ipv4HeaderFields {
        version: 4,
        ihl: 5,
        tos: 0,
        total_length: 0x73,
        identification: 0,
        flags: 2,
        fragment_offset: 0,
        ttl: 64,
        protocol: 17,
        source: [192, 168, 0, 1],
        destination: [192, 168, 0, 199],
    }
}

#[test]
fn checksum_of_empty_data_is_all_ones() {
    assert_eq!(checksum(&[]), 0xffff);
}

#[test]
fn checksum_of_all_ones_word_is_zero() {
    assert_eq!(checksum(&[0xff, 0xff]), 0x0000);
}

#[test]
fn checksum_pads_odd_trailing_byte() {
    assert_eq!(checksum(&[0x01]), 0xfeff);
    assert_eq!(checksum(&[0x12, 0x34, 0x56]), !(0x1234u16 + 0x5600));
}

#[test]
fn checksum_folds_carries() {
    // 0xffff + 0x0001 = 0x1_0000, folded to 0x0001.
    assert_eq!(checksum(&[0xff, 0xff, 0x00, 0x01]), 0xfffe);
}

#[test]
fn checksum_of_known_ipv4_header() {
    let bytes = [
        0x45, 0x00, 0x00, 0x73, 0x00, 0x00, 0x40, 0x00, 0x40, 0x11, 0x00, 0x00, 0xc0, 0xa8,
        0x00, 0x01, 0xc0, 0xa8, 0x00, 0xc7,
    ];
    assert_eq!(checksum(&bytes), 0xb861);
}

#[test]
fn ip_checksum_of_known_header() {
    assert_eq!(ip_checksum(&sample_fields()), 0xb861);
}

#[test]
fn ip_checksum_verifier_accepts_stamped_header() {
    let f = sample_fields();
    let header = Ipv4Header { fields: f, header_checksum: ip_checksum(&f) };
    assert!(ip_checksum_verifier(&header));
    let bytes = serialize_ipv4_header(&header);
    assert_eq!(checksum(&bytes), 0);
}

#[test]
fn ip_checksum_verifier_rejects_wrong_checksum() {
    let header = Ipv4Header { fields: sample_fields(), header_checksum: 0x1234 };
    assert!(!ip_checksum_verifier(&header));
}

#[test]
fn icmp_checksum_verifier_checks_header_bytes() {
    // Header 08 00 ?? ?? 00 01 00 02: sum without checksum = 0x0800 + 0x0001 + 0x0002.
    let sum: u16 = 0x0800 + 0x0001 + 0x0002;
    let good = IcmpHeader { icmp_type: 8, code: 0, checksum: !sum, extended_header: 0x0001_0002 };
    assert!(icmp_checksum_verifier(&good));
    let bad = IcmpHeader { checksum: 0, ..good };
    assert!(!icmp_checksum_verifier(&bad));
}

#[test]
fn tcp_checksum_fills_to_zero() {
    let src = [10, 0, 0, 2];
    let dst = [10, 0, 0, 1];
    let header = TCPHeader {
        src_port: 8080,
        dst_port: 40000,
        seq_num: 1,
        ack_num: 2,
        data_offset: 5,
        flags: 0x12,
        window: 64240,
        checksum: 0xabcd,
        urgent_ptr: 0,
    };
    let pkt = TCPPacket { header, payload: vec![1, 2, 3] };
    let c = tcp_checksum(src, dst, &pkt);
    // The checksum field of the segment does not take part.
    let pkt0 = TCPPacket { header: TCPHeader { checksum: 0, ..header }, payload: vec![1, 2, 3] };
    assert_eq!(tcp_checksum(src, dst, &pkt0), c);
    let mut buf = Vec::new();
    buf.extend_from_slice(&src);
    buf.extend_from_slice(&dst);
    buf.extend_from_slice(&[0, 6, 0, 23]);
    buf.extend_from_slice(&serialize_tcp_header(&TCPHeader { checksum: c, ..header }));
    buf.extend_from_slice(&[1, 2, 3]);
    assert_eq!(checksum(&buf), 0);
}

#[test]
fn udp_checksum_fills_to_zero() {
    let src = [10, 0, 0, 2];
    let dst = [10, 0, 0, 1];
    let pkt = UDPPacket {
        header: UDPHeader { src_port: 9000, dst_port: 5000, length: 999 },
        checksum: 0,
        payload: b"hello".to_vec(),
    };
    let c = udp_checksum(src, dst, &pkt);
    let mut buf = Vec::new();
    buf.extend_from_slice(&src);
    buf.extend_from_slice(&dst);
    buf.extend_from_slice(&[0, 17, 0, 13]);
    buf.extend_from_slice(&9000u16.to_be_bytes());
    buf.extend_from_slice(&5000u16.to_be_bytes());
    buf.extend_from_slice(&13u16.to_be_bytes());
    buf.extend_from_slice(&c.to_be_bytes());
    buf.extend_from_slice(b"hello");
    assert_eq!(checksum(&buf), 0);
}
