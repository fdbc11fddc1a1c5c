//! ARP packets and the replies this host gives to requests for its address.
use crate::eth::ethernet::{frame_from_me, frame_to, law_ethernet_roundtrip};
use crate::ip::ip::MY_IP;
use crate::wire::{be16, ip_at, lemma_be16_roundtrip, lemma_ip_roundtrip, lemma_mac_roundtrip, mac_at, push_be16, push_bytes, read_ip, read_mac, read_u16, u16_at};
use vstd::prelude::*;

verus! {

/// The MAC address of this host.
pub const MY_MAC: [u8; 6] = [0x06, 0x09, 0x04, 0x02, 0x00, 0x0a];

/// An ARP packet.
#[derive(Clone, Copy, Debug, PartialEq, Eq)]
pub struct ArpPacket {
    pub hardware_type: u16,
    pub protocol_type: u16,
    pub hardware_size: u8,
    pub protocol_size: u8,
    pub opcode: u16,
    pub sender_mac: [u8; 6],
    pub sender_ip: [u8; 4],
    pub target_mac: [u8; 6],
    pub target_ip: [u8; 4],
}

/// The ARP packet in the first 28 bytes of `s`.
pub open spec fn arp_of(s: Seq<u8>) -> ArpPacket {
    ArpPacket {
        hardware_type: u16_at(s, 0),
        protocol_type: u16_at(s, 2),
        hardware_size: s[4],
        protocol_size: s[5],
        opcode: u16_at(s, 6),
        sender_mac: mac_at(s, 8),
        sender_ip: ip_at(s, 14),
        target_mac: mac_at(s, 18),
        target_ip: ip_at(s, 24),
    }
}

/// The 28 bytes of an ARP packet.
pub open spec fn arp_bytes(a: ArpPacket) -> Seq<u8> {
    be16(a.hardware_type) + be16(a.protocol_type) + seq![a.hardware_size, a.protocol_size] + be16(
        a.opcode,
    ) + a.sender_mac@ + a.sender_ip@ + a.target_mac@ + a.target_ip@
}

/// The reply to `req`: it keeps the request's hardware and protocol
/// description, has opcode 2, names this host as sender and the requester as target.
pub open spec fn arp_reply_to(req: ArpPacket) -> ArpPacket {
    ArpPacket {
        hardware_type: req.hardware_type,
        protocol_type: req.protocol_type,
        hardware_size: req.hardware_size,
        protocol_size: req.protocol_size,
        opcode: 2,
        sender_mac: MY_MAC,
        sender_ip: MY_IP,
        target_mac: req.sender_mac,
        target_ip: req.sender_ip,
    }
}

/// The frame that answers `req`: the reply, sent to the requester's MAC address.
pub open spec fn arp_reply_frame_bytes(req: ArpPacket) -> Seq<u8> {
    frame_from_me(req.sender_mac, 0x0806, arp_bytes(arp_reply_to(req)))
}

/// Whether this host answers `a`: a request (opcode 1) for this host's IP address.
pub open spec fn arp_wants_reply(a: ArpPacket) -> bool {
    a.opcode == 1 && a.target_ip == MY_IP
}

/// Parses an ARP packet from the first 28 bytes; shorter input is refused.
pub fn parse_arp(buf: &[u8]) -> (r: Option<ArpPacket>)
    ensures
        r is Some <==> buf@.len() >= 28,
        r matches Some(a) ==> a == arp_of(buf@),
        r matches Some(a) ==> {
            &&& a.hardware_type == u16_at(buf@, 0)
            &&& a.protocol_type == u16_at(buf@, 2)
            &&& a.hardware_size == buf@[4]
            &&& a.protocol_size == buf@[5]
            &&& a.opcode == u16_at(buf@, 6)
            &&& a.sender_mac == mac_at(buf@, 8)
            &&& a.sender_ip == ip_at(buf@, 14)
            &&& a.target_mac == mac_at(buf@, 18)
            &&& a.target_ip == ip_at(buf@, 24)
        },
{
    if buf.len() < 28 {
        return None;
    }
    Some(
        ArpPacket {
            hardware_type: read_u16(buf, 0),
            protocol_type: read_u16(buf, 2),
            hardware_size: buf[4],
            protocol_size: buf[5],
            opcode: read_u16(buf, 6),
            sender_mac: read_mac(buf, 8),
            sender_ip: read_ip(buf, 14),
            target_mac: read_mac(buf, 18),
            target_ip: read_ip(buf, 24),
        },
    )
}

/// Builds the Ethernet frame that answers the request `req`.
pub fn arp_reply_frame(req: &ArpPacket) -> (r: Vec<u8>)
    ensures
        r@ == arp_reply_frame_bytes(*req),
        r@.len() == 42,
        mac_at(r@, 0) == req.sender_mac,
        u16_at(r@, 12) == 0x0806,
        arp_of(r@.skip(14)).hardware_type == req.hardware_type,
        arp_of(r@.skip(14)).protocol_type == req.protocol_type,
        arp_of(r@.skip(14)).hardware_size == req.hardware_size,
        arp_of(r@.skip(14)).protocol_size == req.protocol_size,
        arp_of(r@.skip(14)).opcode == 2,
        arp_of(r@.skip(14)).sender_mac == MY_MAC,
        arp_of(r@.skip(14)).sender_ip == MY_IP,
        arp_of(r@.skip(14)).target_mac == req.sender_mac,
        arp_of(r@.skip(14)).target_ip == req.sender_ip,
{
    proof {
        law_arp_reply_answers_request(*req);
    }
    let mut buf: Vec<u8> = Vec::new();
    push_be16(&mut buf, req.hardware_type);
    push_be16(&mut buf, req.protocol_type);
    buf.push(req.hardware_size);
    buf.push(req.protocol_size);
    push_be16(&mut buf, 2);
    push_bytes(&mut buf, &MY_MAC);
    push_bytes(&mut buf, &MY_IP);
    push_bytes(&mut buf, &req.sender_mac);
    push_bytes(&mut buf, &req.sender_ip);
    assert(buf@ =~= arp_bytes(arp_reply_to(*req)));
    frame_to(&req.sender_mac, 0x0806, &buf)
}

/// Whether `ip` is this host's address.
fn is_my_ip(ip: &[u8; 4]) -> (r: bool)
    ensures
        r == (*ip == MY_IP),
{
    let r = ip[0] == MY_IP[0] && ip[1] == MY_IP[1] && ip[2] == MY_IP[2] && ip[3] == MY_IP[3];
    if r {
        assert(*ip =~= MY_IP);
    } else {
        assert(*ip != MY_IP) by {
            if *ip == MY_IP {
                assert(ip[0] == MY_IP[0] && ip[1] == MY_IP[1] && ip[2] == MY_IP[2] && ip[3]
                    == MY_IP[3]);
            }
        }
    }
    r
}

/// The frame this host sends in answer to `arp`: a reply when `arp` is a
/// request for this host's address, nothing otherwise.
pub fn arp_response(arp: &ArpPacket) -> (r: Option<Vec<u8>>)
    ensures
        r is Some <==> arp_wants_reply(*arp),
        r is Some <==> (arp.opcode == 1 && arp.target_ip == MY_IP),
        r matches Some(f) ==> f@ == arp_reply_frame_bytes(*arp),
{
    if arp.opcode == 1 && is_my_ip(&arp.target_ip) {
        Some(arp_reply_frame(arp))
    } else {
        None
    }
}

/// The bytes of an ARP packet are read back by `parse_arp` as the same packet.
pub proof fn law_arp_roundtrip(a: ArpPacket, rest: Seq<u8>)
    ensures
        (arp_bytes(a) + rest).len() >= 28,
        arp_of(arp_bytes(a) + rest) == a,
{
    let s = arp_bytes(a) + rest;
    assert(s.subrange(0, 2) =~= be16(a.hardware_type));
    assert(s.subrange(2, 4) =~= be16(a.protocol_type));
    assert(s.subrange(6, 8) =~= be16(a.opcode));
    assert(s.subrange(8, 14) =~= a.sender_mac@);
    assert(s.subrange(14, 18) =~= a.sender_ip@);
    assert(s.subrange(18, 24) =~= a.target_mac@);
    assert(s.subrange(24, 28) =~= a.target_ip@);
    lemma_be16_roundtrip(a.hardware_type, s, 0);
    lemma_be16_roundtrip(a.protocol_type, s, 2);
    lemma_be16_roundtrip(a.opcode, s, 6);
    lemma_mac_roundtrip(a.sender_mac, s, 8);
    lemma_ip_roundtrip(a.sender_ip, s, 14);
    lemma_mac_roundtrip(a.target_mac, s, 18);
    lemma_ip_roundtrip(a.target_ip, s, 24);
}

/// The frame that answers a request is read back as an ARP frame sent by
/// this host to the requester's MAC address, whose packet is a reply
/// (opcode 2) that keeps the request's hardware and protocol types and
/// address sizes, names this host's MAC and IP addresses as sender, and
/// names the requester's MAC and IP addresses as target.
pub proof fn law_arp_reply_answers_request(req: ArpPacket)
    ensures
        ({
            let s = arp_reply_frame_bytes(req);
            let a = arp_of(s.skip(14));
            &&& s.len() == 14 + 28
            &&& mac_at(s, 0) == req.sender_mac
            &&& mac_at(s, 6) == MY_MAC
            &&& u16_at(s, 12) == 0x0806
            &&& a.hardware_type == req.hardware_type
            &&& a.protocol_type == req.protocol_type
            &&& a.hardware_size == req.hardware_size
            &&& a.protocol_size == req.protocol_size
            &&& a.opcode == 2
            &&& a.sender_mac == MY_MAC
            &&& a.sender_ip == MY_IP
            &&& a.target_mac == req.sender_mac
            &&& a.target_ip == req.sender_ip
        }),
{
    let a = arp_bytes(arp_reply_to(req));
    law_ethernet_roundtrip(req.sender_mac, MY_MAC, 0x0806, a);
    law_arp_roundtrip(arp_reply_to(req), seq![]);
    let s = arp_reply_frame_bytes(req);
    assert(s.skip(14) =~= a + seq![]);
}

} // verus!
