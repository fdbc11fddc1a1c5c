//! The control segments (RST, ACK, SYN-ACK) this host sends in answer to a
//! received segment, and the serialisation of an IPv4 packet carrying a segment.
use crate::checksum::checksum::{
    internet_checksum, ip_checksum, law_ip_checksum_verifies, law_tcp_checksum_verifies, pseudo_header,
    lemma_sum_fits_by_len, spec_ip_checksum, spec_tcp_checksum, tcp_checksum, tcp_checksum_input,
};
use crate::eth::arp::MY_MAC;
use crate::eth::ethernet::{frame_from_me, frame_to, law_ethernet_roundtrip, EthernetFrame};
use crate::ip::ip::{
    ipv4_accepts, ipv4_header_bytes, ipv4_header_of, ipv4_payload_of, law_ipv4_roundtrip,
    serialize_ipv4_header, Ipv4Header, Ipv4HeaderFields,
};
use crate::tcp::tcp::{
    law_tcp_roundtrip, serialize_tcp_header, tcp_accepts, tcp_header_bytes, tcp_header_of, TCPHeader,
    TCPPacket, ACK, RST, SYN,
};
use crate::wire::{mac_at, push_bytes, u16_at};
use vstd::prelude::*;

verus! {

/// Writes an IPv4 packet: the header `y` followed by the segment `x`.
pub fn create_packet(x: &TCPPacket, y: &Ipv4Header) -> (r: Vec<u8>)
    ensures
        r@ == ipv4_header_bytes(*y) + tcp_header_bytes(x.header) + x.payload@,
{
    let mut buf = serialize_ipv4_header(y);
    let header = serialize_tcp_header(&x.header);
    push_bytes(&mut buf, header.as_slice());
    push_bytes(&mut buf, x.payload.as_slice());
    buf
}

/// The header of a segment without data answering `recv`: ports swapped,
/// a five-word header, and the given numbers, flags and window; checksum zero.
pub open spec fn answer_header(recv: TCPHeader, seq: u32, ack: u32, flags: u16, window: u16) -> TCPHeader {
    TCPHeader {
        src_port: recv.dst_port,
        dst_port: recv.src_port,
        seq_num: seq,
        ack_num: ack,
        data_offset: 5,
        flags,
        window,
        checksum: 0,
        urgent_ptr: 0,
    }
}

/// The IPv4 fields of a 40-byte TCP packet answering a packet with fields `recv_ip`.
pub open spec fn answer_ip_fields(recv_ip: Ipv4HeaderFields) -> Ipv4HeaderFields {
    Ipv4HeaderFields {
        version: 4,
        ihl: 5,
        tos: 0,
        total_length: 40,
        identification: 0,
        flags: 0,
        fragment_offset: 0,
        ttl: 64,
        protocol: 6,
        source: recv_ip.destination,
        destination: recv_ip.source,
    }
}

/// The frame that carries the data-less segment `h` (checksum zero) back to
/// the sender of a packet with IPv4 fields `recv_ip` in `eth`: both
/// checksums are filled in.
#[verifier::opaque]
pub open spec fn answer_frame_bytes(recv_ip: Ipv4HeaderFields, eth: EthernetFrame, h: TCPHeader) -> Seq<u8> {
    let f = answer_ip_fields(recv_ip);
    let c = spec_tcp_checksum(f.source, f.destination, h, seq![]);
    frame_from_me(
        eth.src_mac,
        0x0800,
        ipv4_header_bytes(Ipv4Header { fields: f, header_checksum: spec_ip_checksum(f) })
            + tcp_header_bytes(TCPHeader { checksum: c, ..h }),
    )
}

/// The RST answering `recv_tcp`: it acknowledges one past the received
/// sequence number and uses the received acknowledgment number as its own.
pub open spec fn rst_header(recv_tcp: TCPHeader) -> TCPHeader {
    answer_header(recv_tcp, recv_tcp.ack_num, recv_tcp.seq_num.wrapping_add(1), 0x04, 0)
}

/// The ACK with the given numbers answering `recv_tcp`.
pub open spec fn ack_header(recv_tcp: TCPHeader, seq: u32, ack: u32) -> TCPHeader {
    answer_header(recv_tcp, seq, ack, 0x10, 64240)
}

/// The SYN-ACK answering the SYN `recv_tcp`: it starts at `seq` and
/// acknowledges one past the received sequence number.
pub open spec fn syn_ack_header(recv_tcp: TCPHeader, seq: u32) -> TCPHeader {
    answer_header(recv_tcp, seq, recv_tcp.seq_num.wrapping_add(1), 0x12, 64240)
}

/// Builds the frame carrying the data-less segment `header` back to the sender.
fn answer_frame(recv_ip: &Ipv4HeaderFields, eth: &EthernetFrame, header: TCPHeader) -> (r: Vec<u8>)
    requires
        header.checksum == 0,
        header.data_offset == 5,
    ensures
        r@ == answer_frame_bytes(*recv_ip, *eth, header),
{
    reveal(answer_frame_bytes);
    let mut tcp_packet = TCPPacket { header, payload: Vec::new() };
    let ip_fields = Ipv4HeaderFields {
        version: 4,
        ihl: 5,
        tos: 0,
        total_length: 40,
        identification: 0,
        flags: 0,
        fragment_offset: 0,
        ttl: 64,
        protocol: 6,
        source: recv_ip.destination,
        destination: recv_ip.source,
    };
    proof {
        lemma_sum_fits_by_len(
            tcp_checksum_input(ip_fields.source, ip_fields.destination, header, seq![], 0),
        );
    }
    assert(tcp_packet.payload@ =~= Seq::<u8>::empty());
    tcp_packet.header.checksum = tcp_checksum(ip_fields.source, ip_fields.destination, &tcp_packet);
    let ip_header = Ipv4Header { fields: ip_fields, header_checksum: ip_checksum(&ip_fields) };
    let ip_tcp_buf = create_packet(&tcp_packet, &ip_header);
    assert(ip_tcp_buf@ =~= ipv4_header_bytes(ip_header) + tcp_header_bytes(tcp_packet.header));
    frame_to(&eth.src_mac, 0x0800, ip_tcp_buf.as_slice())
}

/// Builds the frame that resets the connection of the received segment `recv_tcp`.
pub fn rst_frame(recv_ip: &Ipv4HeaderFields, recv_tcp: &TCPHeader, eth: &EthernetFrame) -> (r: Vec<u8>)
    ensures
        r@ == answer_frame_bytes(*recv_ip, *eth, rst_header(*recv_tcp)),
        is_answer_frame(r@, *recv_ip, *recv_tcp, *eth),
        tcp_header_of(ipv4_payload_of(r@.skip(14))).flags == RST,
        tcp_header_of(ipv4_payload_of(r@.skip(14))).window == 0,
        tcp_header_of(ipv4_payload_of(r@.skip(14))).seq_num == recv_tcp.ack_num,
        tcp_header_of(ipv4_payload_of(r@.skip(14))).ack_num == recv_tcp.seq_num.wrapping_add(1),
{
    proof {
        law_rst_answers(*recv_ip, *recv_tcp, *eth);
    }
    let header = TCPHeader {
        src_port: recv_tcp.dst_port,
        dst_port: recv_tcp.src_port,
        seq_num: recv_tcp.ack_num,
        ack_num: recv_tcp.seq_num.wrapping_add(1),
        data_offset: 5,
        flags: 0x04,
        window: 0,
        checksum: 0,
        urgent_ptr: 0,
    };
    answer_frame(recv_ip, eth, header)
}

/// Builds the frame that acknowledges with the numbers `seq` and `ack`.
pub fn ack_frame(
    recv_ip: &Ipv4HeaderFields,
    recv_tcp: &TCPHeader,
    eth: &EthernetFrame,
    seq: u32,
    ack: u32,
) -> (r: Vec<u8>)
    ensures
        r@ == answer_frame_bytes(*recv_ip, *eth, ack_header(*recv_tcp, seq, ack)),
        is_answer_frame(r@, *recv_ip, *recv_tcp, *eth),
        tcp_header_of(ipv4_payload_of(r@.skip(14))).flags == ACK,
        tcp_header_of(ipv4_payload_of(r@.skip(14))).window == 64240,
        tcp_header_of(ipv4_payload_of(r@.skip(14))).seq_num == seq,
        tcp_header_of(ipv4_payload_of(r@.skip(14))).ack_num == ack,
{
    proof {
        law_ack_answers(*recv_ip, *recv_tcp, *eth, seq, ack);
    }
    let header = TCPHeader {
        src_port: recv_tcp.dst_port,
        dst_port: recv_tcp.src_port,
        seq_num: seq,
        ack_num: ack,
        data_offset: 5,
        flags: 0x10,
        window: 64240,
        checksum: 0,
        urgent_ptr: 0,
    };
    answer_frame(recv_ip, eth, header)
}

/// Builds the frame that answers the SYN `recv_tcp` with a SYN-ACK starting at `seq`.
pub fn syn_ack_frame(recv_ip: &Ipv4HeaderFields, recv_tcp: &TCPHeader, eth: &EthernetFrame, seq: u32) -> (r: Vec<u8>)
    ensures
        r@ == answer_frame_bytes(*recv_ip, *eth, syn_ack_header(*recv_tcp, seq)),
        is_answer_frame(r@, *recv_ip, *recv_tcp, *eth),
        tcp_header_of(ipv4_payload_of(r@.skip(14))).flags == SYN | ACK,
        tcp_header_of(ipv4_payload_of(r@.skip(14))).window == 64240,
        tcp_header_of(ipv4_payload_of(r@.skip(14))).seq_num == seq,
        tcp_header_of(ipv4_payload_of(r@.skip(14))).ack_num == recv_tcp.seq_num.wrapping_add(1),
{
    proof {
        law_syn_ack_answers(*recv_ip, *recv_tcp, *eth, seq);
    }
    let header = TCPHeader {
        src_port: recv_tcp.dst_port,
        dst_port: recv_tcp.src_port,
        seq_num: seq,
        ack_num: recv_tcp.seq_num.wrapping_add(1),
        data_offset: 5,
        flags: 0x12,
        window: 64240,
        checksum: 0,
        urgent_ptr: 0,
    };
    answer_frame(recv_ip, eth, header)
}

/// A control segment this host sends is read back as a 40-byte IPv4 packet
/// to the sender of the received one, with a valid header checksum,
/// carrying the segment (its header length read in bytes) with a valid
/// checksum over the pseudo-header.
pub proof fn law_answer_frame_parses_back(recv_ip: Ipv4HeaderFields, eth: EthernetFrame, h: TCPHeader)
    requires
        h.checksum == 0,
        h.data_offset == 5,
        h.flags < 0x200,
    ensures
        ({
            let s = answer_frame_bytes(recv_ip, eth, h);
            let p = s.skip(14);
            let f = answer_ip_fields(recv_ip);
            let c = spec_tcp_checksum(f.source, f.destination, h, seq![]);
            &&& s.len() == 54
            &&& mac_at(s, 0) == eth.src_mac
            &&& mac_at(s, 6) == MY_MAC
            &&& u16_at(s, 12) == 0x0800
            &&& ipv4_accepts(p)
            &&& ipv4_header_of(p) == Ipv4Header { fields: f, header_checksum: spec_ip_checksum(f) }
            &&& internet_checksum(ipv4_header_bytes(ipv4_header_of(p))) == 0
            &&& tcp_accepts(ipv4_payload_of(p))
            &&& tcp_header_of(ipv4_payload_of(p)) == (TCPHeader { data_offset: 20, checksum: c, ..h })
            &&& internet_checksum(tcp_checksum_input(f.source, f.destination, h, seq![], c)) == 0
            &&& ipv4_payload_of(p) == tcp_header_bytes(TCPHeader { checksum: c, ..h })
            &&& internet_checksum(
                pseudo_header(recv_ip.destination, recv_ip.source, 6, 20) + ipv4_payload_of(p),
            ) == 0
        }),
{
    reveal(answer_frame_bytes);
    let f = answer_ip_fields(recv_ip);
    let c = spec_tcp_checksum(f.source, f.destination, h, seq![]);
    let ih = Ipv4Header { fields: f, header_checksum: spec_ip_checksum(f) };
    let th = TCPHeader { checksum: c, ..h };
    let seg = tcp_header_bytes(th);
    let ip_bytes = ipv4_header_bytes(ih) + seg;
    law_ethernet_roundtrip(eth.src_mac, MY_MAC, 0x0800, ip_bytes);
    let s = answer_frame_bytes(recv_ip, eth, h);
    assert(s.skip(14) =~= ip_bytes);
    law_ipv4_roundtrip(ih, seg);
    law_ip_checksum_verifies(f);
    law_tcp_roundtrip(th, seq![]);
    assert(seg + seq![] =~= seg);
    law_tcp_checksum_verifies(f.source, f.destination, h, seq![]);
    assert(tcp_checksum_input(f.source, f.destination, h, seq![], c) =~= pseudo_header(
        recv_ip.destination,
        recv_ip.source,
        6,
        20,
    ) + seg);
}

/// What every control segment this host sends in answer to `recv_tcp`,
/// carried by `recv_ip` in `eth`, reads back as: an IPv4 frame to the
/// sender's MAC address; a whole (unfragmented) 40-byte IPv4 packet with
/// TTL 64 and protocol TCP, from the address the segment was sent to back
/// to its sender, with a valid header checksum; carrying a 20-byte TCP
/// header from the port the segment was sent to back to the port it came
/// from, with no urgent pointer and a valid checksum over the pseudo-header.
#[verifier::opaque]
pub open spec fn is_answer_frame(s: Seq<u8>, recv_ip: Ipv4HeaderFields, recv_tcp: TCPHeader, eth: EthernetFrame) -> bool {
    let p = s.skip(14);
    let ih = ipv4_header_of(p).fields;
    let seg = ipv4_payload_of(p);
    let t = tcp_header_of(seg);
    &&& s.len() == 54
    &&& mac_at(s, 0) == eth.src_mac
    &&& mac_at(s, 6) == MY_MAC
    &&& u16_at(s, 12) == 0x0800
    &&& ipv4_accepts(p)
    &&& internet_checksum(ipv4_header_bytes(ipv4_header_of(p))) == 0
    &&& ih.version == 4
    &&& ih.ihl == 5
    &&& ih.tos == 0
    &&& ih.total_length == 40
    &&& ih.identification == 0
    &&& ih.flags == 0
    &&& ih.fragment_offset == 0
    &&& ih.ttl == 64
    &&& ih.protocol == 6
    &&& ih.source == recv_ip.destination
    &&& ih.destination == recv_ip.source
    &&& seg.len() == 20
    &&& tcp_accepts(seg)
    &&& t.src_port == recv_tcp.dst_port
    &&& t.dst_port == recv_tcp.src_port
    &&& t.data_offset == 20
    &&& t.urgent_ptr == 0
    &&& internet_checksum(pseudo_header(recv_ip.destination, recv_ip.source, 6, 20) + seg) == 0
}

/// Any data-less segment built as an answer to `recv_tcp` (ports swapped,
/// five-word header, checksum and urgent pointer zero) yields a frame of the
/// shape of `is_answer_frame`, whose TCP header reads back as the segment
/// with its header length in bytes and its checksum filled in.
proof fn lemma_answer_frame_shape(recv_ip: Ipv4HeaderFields, recv_tcp: TCPHeader, eth: EthernetFrame, h: TCPHeader)
    requires
        h.src_port == recv_tcp.dst_port,
        h.dst_port == recv_tcp.src_port,
        h.checksum == 0,
        h.data_offset == 5,
        h.urgent_ptr == 0,
        h.flags < 0x200,
    ensures
        is_answer_frame(answer_frame_bytes(recv_ip, eth, h), recv_ip, recv_tcp, eth),
        tcp_header_of(ipv4_payload_of(answer_frame_bytes(recv_ip, eth, h).skip(14))) == (TCPHeader {
            data_offset: 20,
            checksum: spec_tcp_checksum(recv_ip.destination, recv_ip.source, h, seq![]),
            ..h
        }),
{
    reveal(is_answer_frame);
    law_answer_frame_parses_back(recv_ip, eth, h);
    let s = answer_frame_bytes(recv_ip, eth, h);
    let c = spec_tcp_checksum(recv_ip.destination, recv_ip.source, h, seq![]);
    assert(ipv4_payload_of(s.skip(14)).len() == 20);
}

/// The RST read back from its frame is an answer to `recv_tcp` with only
/// the RST flag, window zero, sequence number equal to the received
/// acknowledgment number, and acknowledgment number one past the received
/// sequence number (wrapping).
pub proof fn law_rst_answers(recv_ip: Ipv4HeaderFields, recv_tcp: TCPHeader, eth: EthernetFrame)
    ensures
        ({
            let s = answer_frame_bytes(recv_ip, eth, rst_header(recv_tcp));
            let t = tcp_header_of(ipv4_payload_of(s.skip(14)));
            &&& is_answer_frame(s, recv_ip, recv_tcp, eth)
            &&& t.flags == RST
            &&& t.window == 0
            &&& t.seq_num == recv_tcp.ack_num
            &&& t.ack_num == recv_tcp.seq_num.wrapping_add(1)
        }),
{
    let h = rst_header(recv_tcp);
    assert(h.src_port == recv_tcp.dst_port && h.dst_port == recv_tcp.src_port);
    assert(h.checksum == 0 && h.data_offset == 5 && h.urgent_ptr == 0 && h.flags < 0x200);
    lemma_answer_frame_shape(recv_ip, recv_tcp, eth, h);
}

/// The ACK read back from its frame is an answer to `recv_tcp` with only
/// the ACK flag, window 64240, and the given sequence and acknowledgment numbers.
pub proof fn law_ack_answers(recv_ip: Ipv4HeaderFields, recv_tcp: TCPHeader, eth: EthernetFrame, seq: u32, ack: u32)
    ensures
        ({
            let s = answer_frame_bytes(recv_ip, eth, ack_header(recv_tcp, seq, ack));
            let t = tcp_header_of(ipv4_payload_of(s.skip(14)));
            &&& is_answer_frame(s, recv_ip, recv_tcp, eth)
            &&& t.flags == ACK
            &&& t.window == 64240
            &&& t.seq_num == seq
            &&& t.ack_num == ack
        }),
{
    let h = ack_header(recv_tcp, seq, ack);
    assert(h.src_port == recv_tcp.dst_port && h.dst_port == recv_tcp.src_port);
    assert(h.checksum == 0 && h.data_offset == 5 && h.urgent_ptr == 0 && h.flags < 0x200);
    lemma_answer_frame_shape(recv_ip, recv_tcp, eth, h);
}

/// The SYN-ACK read back from its frame is an answer to `recv_tcp` with
/// the SYN and ACK flags, window 64240, sequence number `seq`, and
/// acknowledgment number one past the received sequence number (wrapping).
pub proof fn law_syn_ack_answers(recv_ip: Ipv4HeaderFields, recv_tcp: TCPHeader, eth: EthernetFrame, seq: u32)
    ensures
        ({
            let s = answer_frame_bytes(recv_ip, eth, syn_ack_header(recv_tcp, seq));
            let t = tcp_header_of(ipv4_payload_of(s.skip(14)));
            &&& is_answer_frame(s, recv_ip, recv_tcp, eth)
            &&& t.flags == SYN | ACK
            &&& t.window == 64240
            &&& t.seq_num == seq
            &&& t.ack_num == recv_tcp.seq_num.wrapping_add(1)
        }),
{
    let h = syn_ack_header(recv_tcp, seq);
    assert(h.src_port == recv_tcp.dst_port && h.dst_port == recv_tcp.src_port);
    assert(h.checksum == 0 && h.data_offset == 5 && h.urgent_ptr == 0 && h.flags < 0x200);
    lemma_answer_frame_shape(recv_ip, recv_tcp, eth, h);
    assert(SYN | ACK == 0x12u16) by (bit_vector);
}

} // verus!
