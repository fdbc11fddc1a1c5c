//! The quote service: a UDP request whose first byte is 1 is answered with
//! one of a fixed list of quotes, picked at random.
use crate::checksum::checksum::{
    internet_checksum, ip_checksum, law_ip_checksum_verifies, law_udp_checksum_verifies, pseudo_header,
    lemma_sum_fits_by_len, spec_ip_checksum, spec_udp_checksum, sum_fits, udp_checksum,
    udp_checksum_input,
};
use crate::eth::arp::MY_MAC;
use crate::eth::ethernet::{frame_from_me, frame_to, law_ethernet_roundtrip, EthernetFrame};
use crate::ip::ip::{
    ipv4_accepts, ipv4_header_bytes, ipv4_header_of, ipv4_payload_of, law_ipv4_roundtrip, Ipv4Header,
    Ipv4HeaderFields, Ipv4Packet,
};
use crate::udp::udp::{
    create_udp_packet, law_udp_roundtrip, udp_datagram_bytes, udp_header_of, UDPHeader, UDPPacket,
};
use crate::wire::{mac_at, push_bytes, u16_at};
use rand::seq::IndexedRandom;
use vstd::string::StringSliceAdditionalSpecFns;
use vstd::prelude::*;

verus! {

/// The quotes the service hands out.
pub open spec fn quote_list() -> Seq<&'static str> {
    seq![
        "Computer science is no more about computers than astronomy is about telescopes. — Edsger W. Dijkstra",
        "Programs must be written for people to read, and only incidentally for machines to execute. — Harold Abelson & Gerald Jay Sussman",
        "The question of whether a computer can think is no more interesting than the question of whether a submarine can swim. — Edsger W. Dijkstra",
        "Measuring programming progress by lines of code is like measuring aircraft building progress by weight. — Bill Gates",
        "Controlling complexity is the essence of computer programming. — Brian Kernighan",
        "Talk is cheap. Show me the code. — Linus Torvalds",
        "The function of good software is to make the complex appear to be simple. — Grady Booch",
        "The best way to predict the future is to invent it. — Alan Kay",
        "Any fool can write code that a computer can understand. Good programmers write code that humans can understand. — Martin Fowler",
        "Premature optimization is the root of all evil. — Donald Knuth",
    ]
}

/// The quotes the service hands out.
pub fn quotes() -> (r: Vec<&'static str>)
    ensures
        r@ == quote_list(),
{
    let r = vec![
        "Computer science is no more about computers than astronomy is about telescopes. — Edsger W. Dijkstra",
        "Programs must be written for people to read, and only incidentally for machines to execute. — Harold Abelson & Gerald Jay Sussman",
        "The question of whether a computer can think is no more interesting than the question of whether a submarine can swim. — Edsger W. Dijkstra",
        "Measuring programming progress by lines of code is like measuring aircraft building progress by weight. — Bill Gates",
        "Controlling complexity is the essence of computer programming. — Brian Kernighan",
        "Talk is cheap. Show me the code. — Linus Torvalds",
        "The function of good software is to make the complex appear to be simple. — Grady Booch",
        "The best way to predict the future is to invent it. — Alan Kay",
        "Any fool can write code that a computer can understand. Good programmers write code that humans can understand. — Martin Fowler",
        "Premature optimization is the root of all evil. — Donald Knuth",
    ];
    assert(r@ =~= quote_list());
    r
}

/// A UTF-8 encoding takes at most four bytes per character.
proof fn lemma_utf8_len_bound(chars: Seq<char>)
    ensures
        vstd::utf8::encode_utf8(chars).len() <= 4 * chars.len(),
    decreases chars.len(),
{
    if chars.len() > 0 {
        lemma_utf8_len_bound(chars.drop_first());
    }
}

/// Every quote takes at most 600 bytes.
proof fn lemma_quote_sizes(i: int)
    requires
        0 <= i < quote_list().len(),
    ensures
        quote_list()[i].spec_bytes().len() <= 600,
{
    reveal_strlit("Computer science is no more about computers than astronomy is about telescopes. — Edsger W. Dijkstra");
    reveal_strlit("Programs must be written for people to read, and only incidentally for machines to execute. — Harold Abelson & Gerald Jay Sussman");
    reveal_strlit("The question of whether a computer can think is no more interesting than the question of whether a submarine can swim. — Edsger W. Dijkstra");
    reveal_strlit("Measuring programming progress by lines of code is like measuring aircraft building progress by weight. — Bill Gates");
    reveal_strlit("Controlling complexity is the essence of computer programming. — Brian Kernighan");
    reveal_strlit("Talk is cheap. Show me the code. — Linus Torvalds");
    reveal_strlit("The function of good software is to make the complex appear to be simple. — Grady Booch");
    reveal_strlit("The best way to predict the future is to invent it. — Alan Kay");
    reveal_strlit("Any fool can write code that a computer can understand. Good programmers write code that humans can understand. — Martin Fowler");
    reveal_strlit("Premature optimization is the root of all evil. — Donald Knuth");
    lemma_utf8_len_bound(quote_list()[i]@);
    assert(quote_list()[i]@.len() <= 150);
}

/// Whether `u` asks for a quote: its data starts with the byte 1.
pub open spec fn quote_requested(u: UDPPacket) -> bool {
    u.payload@.len() > 0 && u.payload@[0] == 1
}

/// The UDP header of the answer carrying `p` to the sender of `recv_udp`.
pub open spec fn quote_udp_header(recv_udp: UDPHeader, p: Seq<u8>) -> UDPHeader {
    UDPHeader {
        src_port: recv_udp.dst_port,
        dst_port: recv_udp.src_port,
        length: ((8 + p.len()) % 0x1_0000) as u16,
    }
}

/// The IPv4 fields of the answer carrying `p` back to the sender of a
/// packet with fields `recv_ip`.
pub open spec fn quote_ip_fields(recv_ip: Ipv4HeaderFields, recv_udp: UDPHeader, p: Seq<u8>) -> Ipv4HeaderFields {
    Ipv4HeaderFields {
        version: 4,
        ihl: 5,
        tos: 0,
        total_length: (20 + quote_udp_header(recv_udp, p).length) as u16,
        identification: 0,
        flags: 0,
        fragment_offset: 0,
        ttl: 64,
        protocol: 17,
        source: recv_ip.destination,
        destination: recv_ip.source,
    }
}

/// The bytes that the checksum of the answer carrying `p` covers.
pub open spec fn quote_checksum_input(recv_ip: Ipv4HeaderFields, recv_udp: UDPHeader, p: Seq<u8>) -> Seq<u8> {
    udp_checksum_input(recv_ip.destination, recv_ip.source, recv_udp.dst_port, recv_udp.src_port, p, 0)
}

/// The sizes under which the answer carrying `p` can be built without an
/// arithmetic overflow: the lengths fit 16 bits and the checksum sum fits 32 bits.
pub open spec fn quote_fits(recv_ip: Ipv4HeaderFields, recv_udp: UDPHeader, p: Seq<u8>) -> bool {
    &&& (8 + p.len()) % 0x1_0000 + 20 <= 0xffff
    &&& p.len() % 0x1_0000 <= 0xfff7
    &&& sum_fits(quote_checksum_input(recv_ip, recv_udp, p))
}

/// The frame that answers the request `recv_udp`, carried by `recv_ip` in
/// `eth`, with the data `p`: ports and addresses swapped, checksums filled in.
#[verifier::opaque]
pub open spec fn quote_frame_bytes(recv_udp: UDPHeader, recv_ip: Ipv4HeaderFields, eth: EthernetFrame, p: Seq<u8>) -> Seq<u8> {
    let h = quote_udp_header(recv_udp, p);
    let f = quote_ip_fields(recv_ip, recv_udp, p);
    let c = spec_udp_checksum(recv_ip.destination, recv_ip.source, h.src_port, h.dst_port, p);
    frame_from_me(
        eth.src_mac,
        0x0800,
        ipv4_header_bytes(Ipv4Header { fields: f, header_checksum: spec_ip_checksum(f) })
            + udp_datagram_bytes(h, c, p),
    )
}

/// Builds the frame that answers `recv_udp` with the text `quote`, when
/// `recv_udp` asks for a quote; nothing otherwise.
pub fn quote_reply_frame(recv_udp: &UDPPacket, recv_ip: &Ipv4Packet, eth: &EthernetFrame, quote: &str) -> (r: Option<Vec<u8>>)
    requires
        quote_fits(recv_ip.header.fields, recv_udp.header, quote.spec_bytes()),
    ensures
        r is Some <==> quote_requested(*recv_udp),
        r is Some <==> (recv_udp.payload@.len() > 0 && recv_udp.payload@[0] == 1),
        r matches Some(f) ==> f@ == quote_frame_bytes(
            recv_udp.header,
            recv_ip.header.fields,
            *eth,
            quote.spec_bytes(),
        ),
        r matches Some(f) ==> 28 + quote.spec_bytes().len() <= 0xffff ==> {
            let ip = f@.skip(14);
            let h = ipv4_header_of(ip).fields;
            let d = ipv4_payload_of(ip);
            &&& mac_at(f@, 0) == eth.src_mac
            &&& u16_at(f@, 12) == 0x0800
            &&& ipv4_accepts(ip)
            &&& internet_checksum(ipv4_header_bytes(ipv4_header_of(ip))) == 0
            &&& h.protocol == 17
            &&& h.flags == 0
            &&& h.fragment_offset == 0
            &&& h.source == recv_ip.header.fields.destination
            &&& h.destination == recv_ip.header.fields.source
            &&& udp_header_of(d).src_port == recv_udp.header.dst_port
            &&& udp_header_of(d).dst_port == recv_udp.header.src_port
            &&& d.skip(8) == quote.spec_bytes()
            &&& internet_checksum(
                pseudo_header(h.source, h.destination, 17, udp_header_of(d).length) + d,
            ) == 0
        },
{
    if recv_udp.payload.len() == 0 {
        return None;
    }
    if recv_udp.payload[0] != 1 {
        return None;
    }
    let mut payload: Vec<u8> = Vec::new();
    push_bytes(&mut payload, quote.as_bytes());
    assert(payload@ =~= quote.spec_bytes());
    let length = ((8 + payload.len() as u128) % 0x1_0000) as u16;
    let mut udp_packet = UDPPacket {
        header: UDPHeader {
            src_port: recv_udp.header.dst_port,
            dst_port: recv_udp.header.src_port,
            length,
        },
        checksum: 0,
        payload,
    };
    udp_packet.checksum = udp_checksum(
        recv_ip.header.fields.destination,
        recv_ip.header.fields.source,
        &udp_packet,
    );
    let ip_fields = Ipv4HeaderFields {
        version: 4,
        ihl: 5,
        tos: 0,
        total_length: 20 + udp_packet.header.length,
        identification: 0,
        flags: 0,
        fragment_offset: 0,
        ttl: 64,
        protocol: 17,
        source: recv_ip.header.fields.destination,
        destination: recv_ip.header.fields.source,
    };
    let ip_header = Ipv4Header { fields: ip_fields, header_checksum: ip_checksum(&ip_fields) };
    let ip_udp_buf = create_udp_packet(&udp_packet, &ip_header);
    let frame = frame_to(&eth.src_mac, 0x0800, ip_udp_buf.as_slice());
    assert(frame@ == quote_frame_bytes(
        recv_udp.header,
        recv_ip.header.fields,
        *eth,
        quote.spec_bytes(),
    )) by {
        reveal(quote_frame_bytes);
    }
    proof {
        if 28 + quote.spec_bytes().len() <= 0xffff {
            law_quote_reply_parses_back(recv_udp.header, recv_ip.header.fields, *eth, quote.spec_bytes());
        }
    }
    Some(frame)
}

/// Picks one of `quotes` with `rand::seq::IndexedRandom::choose`, using the
/// thread-local generator `rand::rng()`. The crate's source returns `None`
/// exactly for an empty slice and otherwise an element at an index drawn
/// uniformly below the length; which element is not stated. `rand::rng()`
/// panics if the operating system's random source cannot seed the generator.
#[verifier::external_body]
fn choose_quote(quotes: &[&'static str]) -> (r: Option<&'static str>)
    ensures
        r is None <==> quotes@.len() == 0,
        r matches Some(q) ==> exists|i: int| 0 <= i < quotes@.len() && quotes@[i] == q,
{
    quotes.choose(&mut rand::rng()).copied()
}

/// Answers `recv_udp` with a quote picked at random from `quote_list()`,
/// when `recv_udp` asks for one; nothing otherwise.
pub fn get_quote_frame(recv_udp: &UDPPacket, recv_ip: &Ipv4Packet, eth: &EthernetFrame) -> (r: Option<Vec<u8>>)
    ensures
        r is Some <==> quote_requested(*recv_udp),
        r is Some <==> (recv_udp.payload@.len() > 0 && recv_udp.payload@[0] == 1),
        r matches Some(f) ==> exists|i: int|
            0 <= i < quote_list().len() && f@ == quote_frame_bytes(
                recv_udp.header,
                recv_ip.header.fields,
                *eth,
                #[trigger] quote_list()[i].spec_bytes(),
            ),
{
    if recv_udp.payload.len() == 0 || recv_udp.payload[0] != 1 {
        return None;
    }
    let all = quotes();
    let chosen = choose_quote(all.as_slice());
    match chosen {
        Some(quote) => {
            let ghost i = choose|i: int| 0 <= i < all@.len() && all@[i] == quote;
            proof {
                lemma_quote_sizes(i);
                let p = quote.spec_bytes();
                lemma_sum_fits_by_len(quote_checksum_input(recv_ip.header.fields, recv_udp.header, p));
            }
            quote_reply_frame(recv_udp, recv_ip, eth, quote)
        },
        None => {
            assert(all@.len() == 10);
            None
        },
    }
}

/// The structure of a quote reply frame: an Ethernet header, the IPv4
/// header built from `quote_ip_fields` with its checksum, and the datagram.
proof fn lemma_quote_frame_structure(recv_udp: UDPHeader, recv_ip: Ipv4HeaderFields, eth: EthernetFrame, p: Seq<u8>)
    requires
        28 + p.len() <= 0xffff,
    ensures
        ({
            let s = quote_frame_bytes(recv_udp, recv_ip, eth, p);
            let ip = s.skip(14);
            let f = quote_ip_fields(recv_ip, recv_udp, p);
            let h = quote_udp_header(recv_udp, p);
            let d = ipv4_payload_of(ip);
            let c = spec_udp_checksum(recv_ip.destination, recv_ip.source, h.src_port, h.dst_port, p);
            &&& s.len() == 42 + p.len()
            &&& mac_at(s, 0) == eth.src_mac
            &&& mac_at(s, 6) == MY_MAC
            &&& u16_at(s, 12) == 0x0800
            &&& ipv4_accepts(ip)
            &&& ipv4_header_of(ip) == Ipv4Header { fields: f, header_checksum: spec_ip_checksum(f) }
            &&& internet_checksum(ipv4_header_bytes(ipv4_header_of(ip))) == 0
            &&& d == udp_datagram_bytes(h, c, p)
        }),
{
    reveal(quote_frame_bytes);
    let h = quote_udp_header(recv_udp, p);
    let f = quote_ip_fields(recv_ip, recv_udp, p);
    let c = spec_udp_checksum(recv_ip.destination, recv_ip.source, h.src_port, h.dst_port, p);
    let ih = Ipv4Header { fields: f, header_checksum: spec_ip_checksum(f) };
    let dg = udp_datagram_bytes(h, c, p);
    let ip_bytes = ipv4_header_bytes(ih) + dg;
    law_ethernet_roundtrip(eth.src_mac, MY_MAC, 0x0800, ip_bytes);
    let s = quote_frame_bytes(recv_udp, recv_ip, eth, p);
    assert(s.skip(14) =~= ip_bytes);
    law_ipv4_roundtrip(ih, dg);
    law_ip_checksum_verifies(f);
}

/// The frame that answers a quote request is read back as an IPv4 packet
/// to the requester with a valid header checksum, carrying a UDP datagram
/// from the requested port back to the requesting one with the quote as its
/// data and a valid checksum, when the total length fits 16 bits.
pub proof fn law_quote_reply_parses_back(recv_udp: UDPHeader, recv_ip: Ipv4HeaderFields, eth: EthernetFrame, p: Seq<u8>)
    requires
        28 + p.len() <= 0xffff,
    ensures
        ({
            let s = quote_frame_bytes(recv_udp, recv_ip, eth, p);
            let ip = s.skip(14);
            let f = quote_ip_fields(recv_ip, recv_udp, p);
            let d = ipv4_payload_of(ip);
            let c = spec_udp_checksum(recv_ip.destination, recv_ip.source, recv_udp.dst_port, recv_udp.src_port, p);
            &&& s.len() == 42 + p.len()
            &&& mac_at(s, 0) == eth.src_mac
            &&& mac_at(s, 6) == MY_MAC
            &&& u16_at(s, 12) == 0x0800
            &&& ipv4_accepts(ip)
            &&& ipv4_header_of(ip) == Ipv4Header { fields: f, header_checksum: spec_ip_checksum(f) }
            &&& internet_checksum(ipv4_header_bytes(ipv4_header_of(ip))) == 0
            &&& ipv4_header_of(ip).fields.version == 4
            &&& ipv4_header_of(ip).fields.ihl == 5
            &&& ipv4_header_of(ip).fields.tos == 0
            &&& ipv4_header_of(ip).fields.total_length == 28 + p.len()
            &&& ipv4_header_of(ip).fields.identification == 0
            &&& ipv4_header_of(ip).fields.flags == 0
            &&& ipv4_header_of(ip).fields.fragment_offset == 0
            &&& ipv4_header_of(ip).fields.ttl == 64
            &&& ipv4_header_of(ip).fields.protocol == 17
            &&& ipv4_header_of(ip).fields.source == recv_ip.destination
            &&& ipv4_header_of(ip).fields.destination == recv_ip.source
            &&& d.len() == 8 + p.len()
            &&& udp_header_of(d) == quote_udp_header(recv_udp, p)
            &&& udp_header_of(d).src_port == recv_udp.dst_port
            &&& udp_header_of(d).dst_port == recv_udp.src_port
            &&& udp_header_of(d).length == 8 + p.len()
            &&& internet_checksum(
                pseudo_header(recv_ip.destination, recv_ip.source, 17, udp_header_of(d).length) + d,
            ) == 0
            &&& u16_at(d, 6) == c
            &&& d.skip(8) == p
            &&& internet_checksum(
                udp_checksum_input(recv_ip.destination, recv_ip.source, recv_udp.dst_port, recv_udp.src_port, p, c),
            ) == 0
        }),
{
    lemma_quote_frame_structure(recv_udp, recv_ip, eth, p);
    let h = quote_udp_header(recv_udp, p);
    let c = spec_udp_checksum(recv_ip.destination, recv_ip.source, h.src_port, h.dst_port, p);
    law_udp_roundtrip(h, c, p);
    law_udp_checksum_verifies(recv_ip.destination, recv_ip.source, h.src_port, h.dst_port, p);
    lemma_checksum_input_is_datagram(recv_ip.destination, recv_ip.source, h, p, c);
}

/// The bytes a UDP checksum covers are the pseudo-header followed by the
/// datagram, when the header's length field is the one the checksum uses.
proof fn lemma_checksum_input_is_datagram(src: [u8; 4], dst: [u8; 4], h: UDPHeader, p: Seq<u8>, c: u16)
    requires
        h.length == crate::checksum::checksum::udp_length_of(p.len()),
    ensures
        udp_checksum_input(src, dst, h.src_port, h.dst_port, p, c) == pseudo_header(
            src,
            dst,
            17,
            h.length,
        ) + udp_datagram_bytes(h, c, p),
{
    assert(udp_checksum_input(src, dst, h.src_port, h.dst_port, p, c) =~= pseudo_header(
        src,
        dst,
        17,
        h.length,
    ) + udp_datagram_bytes(h, c, p));
}

} // verus!
