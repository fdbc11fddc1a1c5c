//! ICMP messages, and the echo reply this host sends to an echo request.
use crate::checksum::checksum::{checksum, internet_checksum, law_checksum_field_verifies, law_ip_checksum_verifies, put_be16, sum_fits};
use crate::eth::arp::MY_MAC;
use crate::eth::ethernet::{frame_from_me, frame_to, law_ethernet_roundtrip, EthernetFrame};
use crate::ip::ip::{ipv4_accepts, ipv4_header_of, ipv4_payload_of, law_ipv4_roundtrip, ipv4_header_bytes, serialize_ipv4_header, Ipv4Header, Ipv4HeaderFields, Ipv4Packet, MY_IP, ip_total_length, ip_total_length_of};
use crate::wire::{mac_at, be16, be32, copy_range, lemma_be16_roundtrip, lemma_be32_roundtrip, push_be16, push_be32, push_bytes, read_u16, read_u32, u16_at, u32_at};
use vstd::prelude::*;

verus! {

/// The 8-byte ICMP header.
#[derive(Clone, Copy, Debug, PartialEq, Eq)]
pub struct IcmpHeader {
    pub icmp_type: u8,
    pub code: u8,
    pub checksum: u16,
    pub extended_header: u32,
}

/// An ICMP message: its header and the data after it.
#[derive(Debug, PartialEq, Eq)]
pub struct IcmpPacket {
    pub fields: IcmpHeader,
    pub payload: Vec<u8>,
}

/// The ICMP header in the first 8 bytes of `s`.
pub open spec fn icmp_header_of(s: Seq<u8>) -> IcmpHeader {
    IcmpHeader {
        icmp_type: s[0],
        code: s[1],
        checksum: u16_at(s, 2),
        extended_header: u32_at(s, 4),
    }
}

/// The 8 bytes of an ICMP header.
pub open spec fn icmp_header_bytes(h: IcmpHeader) -> Seq<u8> {
    seq![h.icmp_type, h.code] + be16(h.checksum) + be32(h.extended_header)
}

/// Parses an ICMP message; fewer than 8 bytes are refused.
pub fn parse_icmp(buf: &[u8]) -> (r: Option<IcmpPacket>)
    ensures
        r is Some <==> buf@.len() >= 8,
        r matches Some(p) ==> p.fields == icmp_header_of(buf@) && p.payload@ == buf@.skip(8),
        r matches Some(p) ==> {
            &&& p.fields.icmp_type == buf@[0]
            &&& p.fields.code == buf@[1]
            &&& p.fields.checksum == u16_at(buf@, 2)
            &&& p.fields.extended_header == u32_at(buf@, 4)
        },
{
    if buf.len() < 8 {
        return None;
    }
    Some(
        IcmpPacket {
            fields: IcmpHeader {
                icmp_type: buf[0],
                code: buf[1],
                checksum: read_u16(buf, 2),
                extended_header: read_u32(buf, 4),
            },
            payload: copy_range(buf, 8, buf.len()),
        },
    )
}

/// Writes the 8-byte ICMP header.
pub fn serialize_icmp_header(header: &IcmpHeader) -> (r: Vec<u8>)
    ensures
        r@ == icmp_header_bytes(*header),
        r@.len() == 8,
        r@[0] == header.icmp_type,
        r@[1] == header.code,
        u16_at(r@, 2) == header.checksum,
        u32_at(r@, 4) == header.extended_header,
{
    let mut buf: Vec<u8> = Vec::new();
    buf.push(header.icmp_type);
    buf.push(header.code);
    push_be16(&mut buf, header.checksum);
    push_be32(&mut buf, header.extended_header);
    assert(buf@ =~= icmp_header_bytes(*header));
    proof {
        law_icmp_roundtrip(*header, seq![]);
        assert(icmp_header_bytes(*header) + seq![] =~= buf@);
    }
    buf
}

impl IcmpHeader {
    /// The identifier of an echo message: the high half of the extended header.
    pub fn identifier(&self) -> (r: u16)
        ensures
            r == self.extended_header / 0x1_0000,
    {
        (self.extended_header / 0x1_0000) as u16
    }

    /// The sequence number of an echo message: the low half of the extended header.
    pub fn sequence(&self) -> (r: u16)
        ensures
            r == self.extended_header % 0x1_0000,
    {
        (self.extended_header % 0x1_0000) as u16
    }
}

/// The header of the echo reply to `req`: type 0, code 0, the request's
/// identifier and sequence number, and the given checksum.
pub open spec fn echo_reply_header(req: IcmpHeader, checksum: u16) -> IcmpHeader {
    IcmpHeader { icmp_type: 0, code: 0, checksum, extended_header: req.extended_header }
}

/// The echo reply message before its checksum is filled in.
pub open spec fn echo_reply_unsummed(req: IcmpHeader, payload: Seq<u8>) -> Seq<u8> {
    icmp_header_bytes(echo_reply_header(req, 0)) + payload
}

/// The echo reply message to `req` carrying `payload`, with its checksum.
pub open spec fn echo_reply_message(req: IcmpHeader, payload: Seq<u8>) -> Seq<u8> {
    icmp_header_bytes(
        echo_reply_header(req, internet_checksum(echo_reply_unsummed(req, payload))),
    ) + payload
}

/// The IPv4 header of a packet from this host to `destination` that
/// carries `len` bytes of protocol `protocol`, with the given checksum.
pub open spec fn reply_ip_header(destination: [u8; 4], protocol: u8, total_length: u16, checksum: u16) -> Ipv4Header {
    Ipv4Header {
        fields: Ipv4HeaderFields {
            version: 4,
            ihl: 5,
            tos: 0,
            total_length,
            identification: 0,
            flags: 0,
            fragment_offset: 0,
            ttl: 64,
            protocol,
            source: MY_IP,
            destination,
        },
        header_checksum: checksum,
    }
}

/// The IPv4 header, checksum included, of the packet that carries the echo reply.
pub open spec fn echo_reply_ip_header(destination: [u8; 4], message_len: nat) -> Ipv4Header {
    let total_length = ip_total_length_of(message_len);
    reply_ip_header(
        destination,
        1,
        total_length,
        internet_checksum(ipv4_header_bytes(reply_ip_header(destination, 1, total_length, 0))),
    )
}

/// The frame that answers the echo request `icmp`, carried by `ipv4` in `eth`:
/// an echo reply with the same identifier, sequence number and data, sent
/// back to the requester's MAC and IP addresses.
pub open spec fn echo_reply_frame_bytes(eth: EthernetFrame, ipv4: Ipv4Packet, icmp: IcmpPacket) -> Seq<u8> {
    let message = echo_reply_message(icmp.fields, icmp.payload@);
    frame_from_me(
        eth.src_mac,
        0x0800,
        ipv4_header_bytes(echo_reply_ip_header(ipv4.header.fields.source, message.len()))
            + message,
    )
}

/// Builds the frame that answers the echo request `icmp`.
pub fn icmp_echo_reply_frame(eth: &EthernetFrame, ipv4: &Ipv4Packet, icmp: &IcmpPacket) -> (r: Vec<u8>)
    requires
        sum_fits(echo_reply_unsummed(icmp.fields, icmp.payload@)),
    ensures
        r@ == echo_reply_frame_bytes(*eth, *ipv4, *icmp),
        r@.len() >= 14,
        mac_at(r@, 0) == eth.src_mac,
        mac_at(r@, 6) == MY_MAC,
        u16_at(r@, 12) == 0x0800,
        28 + icmp.payload@.len() <= 0xffff ==> {
            let p = r@.skip(14);
            let h = ipv4_header_of(p).fields;
            let m = ipv4_payload_of(p);
            &&& ipv4_accepts(p)
            &&& internet_checksum(ipv4_header_bytes(ipv4_header_of(p))) == 0
            &&& h.version == 4
            &&& h.ihl == 5
            &&& h.total_length == 28 + icmp.payload@.len()
            &&& h.flags == 0
            &&& h.fragment_offset == 0
            &&& h.ttl == 64
            &&& h.protocol == 1
            &&& h.source == MY_IP
            &&& h.destination == ipv4.header.fields.source
            &&& m.len() == 8 + icmp.payload@.len()
            &&& icmp_header_of(m).icmp_type == 0
            &&& icmp_header_of(m).code == 0
            &&& icmp_header_of(m).extended_header == icmp.fields.extended_header
            &&& m.skip(8) == icmp.payload@
            &&& internet_checksum(m) == 0
        },
{
    proof {
        if 28 + icmp.payload@.len() <= 0xffff {
            law_echo_reply_parses_back(*eth, *ipv4, *icmp);
        }
    }
    let mut icmp_header = IcmpHeader {
        icmp_type: 0,
        code: 0,
        checksum: 0,
        extended_header: icmp.fields.extended_header,
    };
    let mut icmp_buf = serialize_icmp_header(&icmp_header);
    push_bytes(&mut icmp_buf, icmp.payload.as_slice());
    let icmp_checksum = checksum(icmp_buf.as_slice());
    icmp_header.checksum = icmp_checksum;
    let mut icmp_buf = serialize_icmp_header(&icmp_header);
    push_bytes(&mut icmp_buf, icmp.payload.as_slice());
    let total_length = ip_total_length(icmp_buf.len());
    let mut ip_header = Ipv4Header {
        fields: Ipv4HeaderFields {
            version: 4,
            ihl: 5,
            tos: 0,
            total_length,
            identification: 0,
            flags: 0,
            fragment_offset: 0,
            ttl: 64,
            protocol: 1,
            source: MY_IP,
            destination: ipv4.header.fields.source,
        },
        header_checksum: 0,
    };
    let ip_buf_for_checksum = serialize_ipv4_header(&ip_header);
    proof {
        crate::checksum::checksum::lemma_sum_fits_by_len(ip_buf_for_checksum@);
    }
    let ip_checksum = checksum(ip_buf_for_checksum.as_slice());
    ip_header.header_checksum = ip_checksum;
    let mut ip_buf = serialize_ipv4_header(&ip_header);
    push_bytes(&mut ip_buf, icmp_buf.as_slice());
    frame_to(&eth.src_mac, 0x0800, ip_buf.as_slice())
}

/// The bytes of an ICMP header followed by data are read back by
/// `parse_icmp` as the same header and data.
pub proof fn law_icmp_roundtrip(h: IcmpHeader, payload: Seq<u8>)
    ensures
        (icmp_header_bytes(h) + payload).len() >= 8,
        icmp_header_of(icmp_header_bytes(h) + payload) == h,
        (icmp_header_bytes(h) + payload).skip(8) == payload,
{
    let s = icmp_header_bytes(h) + payload;
    assert(s.subrange(2, 4) =~= be16(h.checksum));
    assert(s.subrange(4, 8) =~= be32(h.extended_header));
    lemma_be16_roundtrip(h.checksum, s, 2);
    lemma_be32_roundtrip(h.extended_header, s, 4);
    assert(s.skip(8) =~= payload);
}

/// The echo reply that this host sends carries a valid checksum: the
/// checksum of the whole reply message is zero.
pub proof fn law_echo_reply_checksum_valid(req: IcmpHeader, payload: Seq<u8>)
    ensures
        internet_checksum(echo_reply_message(req, payload)) == 0,
{
    let s = echo_reply_unsummed(req, payload);
    let c = internet_checksum(s);
    law_checksum_field_verifies(s, 2);
    assert(put_be16(s, 2, c) =~= echo_reply_message(req, payload));
}

/// The frame that answers an echo request is read back as an IPv4 packet
/// to the requester with a valid header checksum, carrying an echo reply
/// (type 0, code 0) with the request's identifier, sequence number and data
/// and a valid checksum, when the reply's total length fits 16 bits.
pub proof fn law_echo_reply_parses_back(eth: EthernetFrame, ipv4: Ipv4Packet, icmp: IcmpPacket)
    requires
        28 + icmp.payload@.len() <= 0xffff,
    ensures
        ({
            let s = echo_reply_frame_bytes(eth, ipv4, icmp);
            let p = s.skip(14);
            let m = echo_reply_message(icmp.fields, icmp.payload@);
            &&& s.len() >= 14
            &&& mac_at(s, 0) == eth.src_mac
            &&& mac_at(s, 6) == MY_MAC
            &&& u16_at(s, 12) == 0x0800
            &&& ipv4_accepts(p)
            &&& ipv4_header_of(p) == echo_reply_ip_header(ipv4.header.fields.source, m.len())
            &&& ipv4_header_of(p).fields.version == 4
            &&& ipv4_header_of(p).fields.ihl == 5
            &&& ipv4_header_of(p).fields.tos == 0
            &&& ipv4_header_of(p).fields.total_length == 28 + icmp.payload@.len()
            &&& ipv4_header_of(p).fields.identification == 0
            &&& ipv4_header_of(p).fields.flags == 0
            &&& ipv4_header_of(p).fields.fragment_offset == 0
            &&& ipv4_header_of(p).fields.ttl == 64
            &&& ipv4_header_of(p).fields.protocol == 1
            &&& ipv4_header_of(p).fields.source == MY_IP
            &&& ipv4_header_of(p).fields.destination == ipv4.header.fields.source
            &&& internet_checksum(ipv4_header_bytes(ipv4_header_of(p))) == 0
            &&& ipv4_payload_of(p) == m
            &&& icmp_header_of(m).icmp_type == 0
            &&& icmp_header_of(m).code == 0
            &&& icmp_header_of(m).extended_header == icmp.fields.extended_header
            &&& m.len() == 8 + icmp.payload@.len()
            &&& m.skip(8) == icmp.payload@
            &&& internet_checksum(m) == 0
        }),
{
    let m = echo_reply_message(icmp.fields, icmp.payload@);
    let h = echo_reply_ip_header(ipv4.header.fields.source, m.len());
    let ip_bytes = ipv4_header_bytes(h) + m;
    law_ethernet_roundtrip(eth.src_mac, MY_MAC, 0x0800, ip_bytes);
    let s = echo_reply_frame_bytes(eth, ipv4, icmp);
    assert(s.skip(14) =~= ip_bytes);
    law_ipv4_roundtrip(h, m);
    law_ip_checksum_verifies(h.fields);
    let c = internet_checksum(echo_reply_unsummed(icmp.fields, icmp.payload@));
    law_icmp_roundtrip(echo_reply_header(icmp.fields, c), icmp.payload@);
    law_echo_reply_checksum_valid(icmp.fields, icmp.payload@);
}

} // verus!
