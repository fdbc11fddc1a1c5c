//! UDP datagrams: header fields, parsing and serialisation.
use crate::ip::ip::{ipv4_header_bytes, serialize_ipv4_header, Ipv4Header};
use crate::wire::{be16, copy_range, lemma_be16_roundtrip, push_be16, push_bytes, read_u16, u16_at};
use vstd::prelude::*;

verus! {

/// The ports and length of a UDP header.
#[derive(Clone, Copy, Debug, PartialEq, Eq)]
pub struct UDPHeader {
    pub src_port: u16,
    pub dst_port: u16,
    pub length: u16,
}

/// A UDP datagram: header, checksum and data.
#[derive(Debug, PartialEq, Eq)]
pub struct UDPPacket {
    pub header: UDPHeader,
    pub checksum: u16,
    pub payload: Vec<u8>,
}

/// The UDP header in the first 6 bytes of `s`.
pub open spec fn udp_header_of(s: Seq<u8>) -> UDPHeader {
    UDPHeader { src_port: u16_at(s, 0), dst_port: u16_at(s, 2), length: u16_at(s, 4) }
}

/// The 6 bytes of ports and length, as `serialize_udp_header` writes them.
pub open spec fn udp_header_bytes(h: UDPHeader) -> Seq<u8> {
    be16(h.src_port) + be16(h.dst_port) + be16(h.length)
}

/// The bytes of a whole datagram: header, checksum, data.
pub open spec fn udp_datagram_bytes(h: UDPHeader, checksum: u16, payload: Seq<u8>) -> Seq<u8> {
    udp_header_bytes(h) + be16(checksum) + payload
}

/// Parses a UDP datagram; fewer than 8 bytes are refused, and the data is
/// everything after the 8-byte header.
pub fn parse_udp(buf: &[u8]) -> (r: Option<UDPPacket>)
    ensures
        r is Some <==> buf@.len() >= 8,
        r matches Some(p) ==> {
            &&& p.header == udp_header_of(buf@)
            &&& p.checksum == u16_at(buf@, 6)
            &&& p.payload@ == buf@.skip(8)
            &&& p.header.src_port == u16_at(buf@, 0)
            &&& p.header.dst_port == u16_at(buf@, 2)
            &&& p.header.length == u16_at(buf@, 4)
        },
{
    if buf.len() < 8 {
        return None;
    }
    let payload = copy_range(buf, 8, buf.len());
    assert(payload@ =~= buf@.skip(8));
    Some(
        UDPPacket {
            header: UDPHeader {
                src_port: read_u16(buf, 0),
                dst_port: read_u16(buf, 2),
                length: read_u16(buf, 4),
            },
            checksum: read_u16(buf, 6),
            payload,
        },
    )
}

/// Writes the ports and the length (the checksum is not part of it).
pub fn serialize_udp_header(packet: &UDPHeader) -> (r: Vec<u8>)
    ensures
        r@ == udp_header_bytes(*packet),
        r@.len() == 6,
        u16_at(r@, 0) == packet.src_port,
        u16_at(r@, 2) == packet.dst_port,
        u16_at(r@, 4) == packet.length,
{
    let mut buf: Vec<u8> = Vec::new();
    push_be16(&mut buf, packet.src_port);
    push_be16(&mut buf, packet.dst_port);
    push_be16(&mut buf, packet.length);
    assert(buf@ =~= udp_header_bytes(*packet));
    proof {
        let b = buf@;
        assert(b.subrange(0, 2) =~= be16(packet.src_port));
        assert(b.subrange(2, 4) =~= be16(packet.dst_port));
        assert(b.subrange(4, 6) =~= be16(packet.length));
        lemma_be16_roundtrip(packet.src_port, b, 0);
        lemma_be16_roundtrip(packet.dst_port, b, 2);
        lemma_be16_roundtrip(packet.length, b, 4);
    }
    buf
}

/// Writes an IPv4 packet: the IPv4 header `ip` followed by the datagram `udp`.
pub fn create_udp_packet(udp: &UDPPacket, ip: &Ipv4Header) -> (r: Vec<u8>)
    ensures
        r@ == ipv4_header_bytes(*ip) + udp_datagram_bytes(udp.header, udp.checksum, udp.payload@),
        r@.subrange(0, 20) == ipv4_header_bytes(*ip),
        u16_at(r@, 20) == udp.header.src_port,
        u16_at(r@, 22) == udp.header.dst_port,
        u16_at(r@, 24) == udp.header.length,
        u16_at(r@, 26) == udp.checksum,
        r@.skip(28) == udp.payload@,
{
    let mut buf = serialize_ipv4_header(ip);
    push_be16(&mut buf, udp.header.src_port);
    push_be16(&mut buf, udp.header.dst_port);
    push_be16(&mut buf, udp.header.length);
    push_be16(&mut buf, udp.checksum);
    push_bytes(&mut buf, udp.payload.as_slice());
    assert(buf@ =~= ipv4_header_bytes(*ip) + udp_datagram_bytes(
        udp.header,
        udp.checksum,
        udp.payload@,
    ));
    proof {
        let b = buf@;
        assert(b.subrange(0, 20) =~= ipv4_header_bytes(*ip));
        assert(b.subrange(20, 22) =~= be16(udp.header.src_port));
        assert(b.subrange(22, 24) =~= be16(udp.header.dst_port));
        assert(b.subrange(24, 26) =~= be16(udp.header.length));
        assert(b.subrange(26, 28) =~= be16(udp.checksum));
        assert(b.skip(28) =~= udp.payload@);
        lemma_be16_roundtrip(udp.header.src_port, b, 20);
        lemma_be16_roundtrip(udp.header.dst_port, b, 22);
        lemma_be16_roundtrip(udp.header.length, b, 24);
        lemma_be16_roundtrip(udp.checksum, b, 26);
    }
    buf
}

/// The bytes of a datagram are read back by `parse_udp` as the same header,
/// checksum and data.
pub proof fn law_udp_roundtrip(h: UDPHeader, checksum: u16, payload: Seq<u8>)
    ensures
        ({
            let s = udp_datagram_bytes(h, checksum, payload);
            &&& s.len() >= 8
            &&& udp_header_of(s) == h
            &&& u16_at(s, 6) == checksum
            &&& s.skip(8) == payload
        }),
{
    let s = udp_datagram_bytes(h, checksum, payload);
    assert(s.subrange(0, 2) =~= be16(h.src_port));
    assert(s.subrange(2, 4) =~= be16(h.dst_port));
    assert(s.subrange(4, 6) =~= be16(h.length));
    assert(s.subrange(6, 8) =~= be16(checksum));
    lemma_be16_roundtrip(h.src_port, s, 0);
    lemma_be16_roundtrip(h.dst_port, s, 2);
    lemma_be16_roundtrip(h.length, s, 4);
    lemma_be16_roundtrip(checksum, s, 6);
    assert(s.skip(8) =~= payload);
}

} // verus!
