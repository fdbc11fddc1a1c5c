//! Ethernet II frames: destination and source MAC addresses, EtherType, payload.
use crate::eth::arp::MY_MAC;
use crate::wire::{be16, copy_range, lemma_be16_roundtrip, lemma_mac_roundtrip, mac_at, push_be16, push_bytes, read_mac, read_u16, u16_at};
use vstd::prelude::*;

verus! {

/// An Ethernet frame.
#[derive(Debug, PartialEq, Eq)]
pub struct EthernetFrame {
    pub dst_mac: [u8; 6],
    pub src_mac: [u8; 6],
    pub ether_type: u16,
    pub payload: Vec<u8>,
}

/// The bytes of an Ethernet frame.
pub open spec fn ethernet_bytes(dst: [u8; 6], src: [u8; 6], ether_type: u16, payload: Seq<u8>) -> Seq<u8> {
    dst@ + src@ + be16(ether_type) + payload
}

/// The bytes of a frame that this host sends to `dst`.
pub open spec fn frame_from_me(dst: [u8; 6], ether_type: u16, payload: Seq<u8>) -> Seq<u8> {
    ethernet_bytes(dst, MY_MAC, ether_type, payload)
}

/// Parses the 14-byte Ethernet header; everything after it is the payload.
pub fn parse_ethernet_frame(buf: &[u8]) -> (r: EthernetFrame)
    requires
        buf@.len() >= 14,
    ensures
        r.dst_mac == mac_at(buf@, 0),
        r.src_mac == mac_at(buf@, 6),
        r.ether_type == u16_at(buf@, 12),
        r.payload@ == buf@.subrange(14, buf@.len() as int),
{
    EthernetFrame {
        dst_mac: read_mac(buf, 0),
        src_mac: read_mac(buf, 6),
        ether_type: read_u16(buf, 12),
        payload: copy_range(buf, 14, buf.len()),
    }
}

/// Builds a frame from this host to `dst` carrying `payload`.
pub fn frame_to(dst: &[u8; 6], ether_type: u16, payload: &[u8]) -> (r: Vec<u8>)
    ensures
        r@ == frame_from_me(*dst, ether_type, payload@),
        r@.len() == 14 + payload@.len(),
        mac_at(r@, 0) == *dst,
        mac_at(r@, 6) == MY_MAC,
        u16_at(r@, 12) == ether_type,
        r@.skip(14) == payload@,
{
    let mut frame: Vec<u8> = Vec::new();
    push_bytes(&mut frame, dst);
    push_bytes(&mut frame, &MY_MAC);
    push_be16(&mut frame, ether_type);
    push_bytes(&mut frame, payload);
    assert(frame@ =~= frame_from_me(*dst, ether_type, payload@));
    proof {
        law_ethernet_roundtrip(*dst, MY_MAC, ether_type, payload@);
        assert(frame@.skip(14) =~= frame@.subrange(14, frame@.len() as int));
    }
    frame
}

/// A frame's bytes are read back by `parse_ethernet_frame` as the same
/// addresses, EtherType and payload.
pub proof fn law_ethernet_roundtrip(dst: [u8; 6], src: [u8; 6], ether_type: u16, payload: Seq<u8>)
    ensures
        ({
            let s = ethernet_bytes(dst, src, ether_type, payload);
            &&& s.len() >= 14
            &&& mac_at(s, 0) == dst
            &&& mac_at(s, 6) == src
            &&& u16_at(s, 12) == ether_type
            &&& s.subrange(14, s.len() as int) == payload
        }),
{
    let s = ethernet_bytes(dst, src, ether_type, payload);
    assert(s.subrange(0, 6) =~= dst@);
    assert(s.subrange(6, 12) =~= src@);
    assert(s.subrange(12, 14) =~= be16(ether_type));
    assert(s.subrange(14, s.len() as int) =~= payload);
    lemma_mac_roundtrip(dst, s, 0);
    lemma_mac_roundtrip(src, s, 6);
    lemma_be16_roundtrip(ether_type, s, 12);
}

} // verus!
