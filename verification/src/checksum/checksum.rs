//! The Internet checksum (ones' complement of the ones' complement sum of
//! the 16-bit big-endian words of the data) and its uses by each protocol.
use crate::icmp::icmp::{icmp_header_bytes, serialize_icmp_header, IcmpHeader};
use crate::ip::ip::{ipv4_header_bytes, serialize_ipv4_header, Ipv4Header, Ipv4HeaderFields};
use crate::tcp::tcp::{serialize_tcp_header, tcp_header_bytes, TCPHeader, TCPPacket};
use crate::udp::udp::UDPPacket;
use crate::wire::{be16, ip_at, lemma_be16_roundtrip, lemma_ip_roundtrip, push_be16, push_bytes, u16_at};
use vstd::prelude::*;

verus! {

/// The plain sum of the 16-bit big-endian words of `s`; a trailing odd byte
/// counts as the high byte of a word whose low byte is zero.
pub open spec fn word_sum(s: Seq<u8>) -> nat
    decreases s.len(),
{
    if s.len() == 0 {
        0
    } else if s.len() == 1 {
        s[0] as nat * 0x100
    } else {
        s[0] as nat * 0x100 + s[1] as nat + word_sum(s.skip(2))
    }
}

/// Adds the carries above 16 bits back in until the value fits in 16 bits.
pub open spec fn fold_carries(x: nat) -> nat
    decreases x,
{
    if x < 0x1_0000 {
        x
    } else {
        proof {
            vstd::arithmetic::div_mod::lemma_fundamental_div_mod(x as int, 0x1_0000);
        }
        fold_carries(x % 0x1_0000 + x / 0x1_0000)
    }
}

/// The Internet checksum of `s`.
pub open spec fn internet_checksum(s: Seq<u8>) -> u16 {
    (0xffff - fold_carries(word_sum(s))) as u16
}

/// The word sum of `s` fits the 32-bit accumulator that `checksum` uses.
pub open spec fn sum_fits(s: Seq<u8>) -> bool {
    word_sum(s) <= u32::MAX
}

/// Peels the first word off the sum of a suffix.
proof fn lemma_word_sum_step(s: Seq<u8>, i: int)
    requires
        0 <= i,
        i + 2 <= s.len(),
    ensures
        word_sum(s.skip(i)) == s[i] as nat * 0x100 + s[i + 1] as nat + word_sum(s.skip(i + 2)),
{
    assert(s.skip(i).skip(2) =~= s.skip(i + 2));
}

/// Each byte adds at most `0xffff` to the word sum.
pub proof fn lemma_word_sum_bound(s: Seq<u8>)
    ensures
        word_sum(s) <= 0xffff * s.len(),
    decreases s.len(),
{
    if s.len() >= 2 {
        lemma_word_sum_bound(s.skip(2));
    }
}

/// Data of at most 65537 bytes always fits the accumulator.
pub proof fn lemma_sum_fits_by_len(s: Seq<u8>)
    requires
        s.len() <= 0x1_0001,
    ensures
        sum_fits(s),
{
    lemma_word_sum_bound(s);
}

/// The word sum of a concatenation whose first part has even length.
pub proof fn lemma_word_sum_concat(a: Seq<u8>, b: Seq<u8>)
    requires
        a.len() % 2 == 0,
    ensures
        word_sum(a + b) == word_sum(a) + word_sum(b),
    decreases a.len(),
{
    if a.len() == 0 {
        assert(a + b =~= b);
    } else {
        assert((a + b).skip(2) =~= a.skip(2) + b);
        lemma_word_sum_concat(a.skip(2), b);
    }
}

/// Writing the two bytes of a word at an even position changes the sum by
/// the difference between the new word and the old one.
pub proof fn lemma_word_sum_update(s: Seq<u8>, p: int, hi: u8, lo: u8)
    requires
        0 <= p,
        p + 2 <= s.len(),
        p % 2 == 0,
    ensures
        word_sum(s.update(p, hi).update(p + 1, lo)) + s[p] as nat * 0x100 + s[p + 1] as nat
            == word_sum(s) + hi as nat * 0x100 + lo as nat,
    decreases p,
{
    let t = s.update(p, hi).update(p + 1, lo);
    if p == 0 {
        assert(t.skip(2) =~= s.skip(2));
    } else {
        assert(t.skip(2) =~= s.skip(2).update(p - 2, hi).update(p - 1, lo));
        lemma_word_sum_update(s.skip(2), p - 2, hi, lo);
    }
}

/// Folding carries keeps the value modulo `0xffff`, keeps it positive, and
/// yields at most 16 bits.
pub proof fn lemma_fold_carries(x: nat)
    ensures
        fold_carries(x) < 0x1_0000,
        fold_carries(x) % 0xffff == x % 0xffff,
        x > 0 ==> fold_carries(x) > 0,
    decreases x,
{
    if x >= 0x1_0000 {
        let q = x / 0x1_0000;
        let r = x % 0x1_0000;
        vstd::arithmetic::div_mod::lemma_fundamental_div_mod(x as int, 0x1_0000);
        assert(x == q * 0x1_0000 + r);
        assert(q >= 1);
        assert((q + r) % 0xffff == x % 0xffff) by (nonlinear_arith)
            requires
                x == q * 0x1_0000 + r,
                q >= 1,
                r >= 0,
        ;
        lemma_fold_carries((r + q) as nat);
    }
}

/// A trailing zero byte does not change the word sum: an odd trailing
/// byte counts as the high byte of a word whose low byte is zero.
proof fn lemma_word_sum_pad(s: Seq<u8>)
    ensures
        word_sum(s.push(0)) == word_sum(s),
    decreases s.len(),
{
    let t = s.push(0);
    if s.len() >= 2 {
        assert(t[0] == s[0] && t[1] == s[1]);
        assert(t.skip(2) =~= s.skip(2).push(0));
        lemma_word_sum_pad(s.skip(2));
    } else if s.len() == 1 {
        assert(t[0] == s[0] && t[1] == 0);
        assert(t.skip(2) =~= Seq::<u8>::empty());
        assert(word_sum(t.skip(2)) == 0);
    } else {
        assert(t.len() == 1 && t[0] == 0);
    }
}

/// Appending a zero byte never changes the checksum: data of odd length is
/// checksummed as if padded with one zero byte.
pub proof fn law_checksum_zero_padding(s: Seq<u8>)
    ensures
        internet_checksum(s.push(0)) == internet_checksum(s),
{
    lemma_word_sum_pad(s);
}

/// The checksum does not depend on the order of the 16-bit words: swapping
/// two word-aligned blocks of data leaves it unchanged.
pub proof fn law_checksum_word_order(a: Seq<u8>, b: Seq<u8>)
    requires
        a.len() % 2 == 0,
        b.len() % 2 == 0,
    ensures
        internet_checksum(a + b) == internet_checksum(b + a),
{
    lemma_word_sum_concat(a, b);
    lemma_word_sum_concat(b, a);
}

/// A 16-bit value written as the two bytes of `be16` at position `p`.
pub open spec fn put_be16(s: Seq<u8>, p: int, v: u16) -> Seq<u8> {
    s.update(p, (v / 0x100) as u8).update(p + 1, (v % 0x100) as u8)
}

/// Filling a zeroed, word-aligned checksum field with the checksum of the
/// data makes the checksum of the whole data zero: this is what lets a
/// receiver accept a packet that a sender checksummed.
pub proof fn law_checksum_field_verifies(s: Seq<u8>, p: int)
    requires
        0 <= p,
        p + 2 <= s.len(),
        p % 2 == 0,
        s[p] == 0,
        s[p + 1] == 0,
    ensures
        internet_checksum(put_be16(s, p, internet_checksum(s))) == 0,
{
    let c = internet_checksum(s);
    let sum = word_sum(s);
    lemma_fold_carries(sum);
    let f = fold_carries(sum);
    assert(c == 0xffff - f);
    lemma_word_sum_update(s, p, (c / 0x100) as u8, (c % 0x100) as u8);
    let total = word_sum(put_be16(s, p, c));
    assert(total == sum + c);
    lemma_fold_carries(total);
    if sum == 0 {
        assert(total == 0xffff);
    } else {
        assert(total > 0);
        assert(total % 0xffff == 0) by (nonlinear_arith)
            requires
                total == sum + 0xffff - f,
                f % 0xffff == sum % 0xffff,
                f <= 0xffff,
        ;
        let g = fold_carries(total);
        assert(g == 0xffff) by (nonlinear_arith)
            requires
                g % 0xffff == total % 0xffff,
                total % 0xffff == 0,
                0 < g < 0x1_0000,
        ;
    }
}

/// Computes the Internet checksum of `data`.
pub fn checksum(data: &[u8]) -> (r: u16)
    requires
        sum_fits(data@),
    ensures
        r == internet_checksum(data@),
{
    let mut sum: u32 = 0;
    let n = data.len();
    let mut i: usize = 0;
    assert(data@.skip(0) =~= data@);
    while n - i >= 2
        invariant
            i <= n == data@.len(),
            sum + word_sum(data@.skip(i as int)) == word_sum(data@),
            word_sum(data@) <= u32::MAX,
        decreases n - i,
    {
        proof {
            lemma_word_sum_step(data@, i as int);
        }
        let word = (data[i] as u32) * 0x100 + data[i + 1] as u32;
        sum = sum + word;
        i = i + 2;
    }
    if i < n {
        assert(data@.skip(i as int).len() == 1);
        sum = sum + (data[i] as u32) * 0x100;
    } else {
        assert(data@.skip(i as int).len() == 0);
    }
    assert(sum == word_sum(data@));
    while sum / 0x1_0000 != 0
        invariant
            fold_carries(sum as nat) == fold_carries(word_sum(data@)),
        decreases sum,
    {
        sum = sum % 0x1_0000 + sum / 0x1_0000;
    }
    0xffff - (sum as u16)
}

/// Whether the checksum of `header`, over its 20 bytes, is zero.
pub fn ip_checksum_verifier(header: &Ipv4Header) -> (r: bool)
    ensures
        r == (internet_checksum(ipv4_header_bytes(*header)) == 0),
{
    let bytes = serialize_ipv4_header(header);
    proof {
        lemma_sum_fits_by_len(bytes@);
    }
    checksum(bytes.as_slice()) == 0
}

/// Whether the checksum of the 8 bytes of `header` is zero.
pub fn icmp_checksum_verifier(header: &IcmpHeader) -> (r: bool)
    ensures
        r == (internet_checksum(icmp_header_bytes(*header)) == 0),
{
    let bytes = serialize_icmp_header(header);
    proof {
        lemma_sum_fits_by_len(bytes@);
    }
    checksum(bytes.as_slice()) == 0
}

/// The header with the given fields and a zero checksum.
pub open spec fn unsummed_ipv4_header(h: Ipv4HeaderFields) -> Ipv4Header {
    Ipv4Header { fields: h, header_checksum: 0 }
}

/// The checksum of the header with fields `h`, computed with a zero checksum field.
pub open spec fn spec_ip_checksum(h: Ipv4HeaderFields) -> u16 {
    internet_checksum(ipv4_header_bytes(unsummed_ipv4_header(h)))
}

/// Computes the header checksum for the fields `h`.
pub fn ip_checksum(h: &Ipv4HeaderFields) -> (r: u16)
    ensures
        r == spec_ip_checksum(*h),
{
    let header = Ipv4Header { fields: *h, header_checksum: 0 };
    let bytes = serialize_ipv4_header(&header);
    proof {
        lemma_sum_fits_by_len(bytes@);
    }
    checksum(bytes.as_slice())
}

/// A header whose checksum field holds `ip_checksum` of its fields passes
/// `ip_checksum_verifier`.
pub proof fn law_ip_checksum_verifies(h: Ipv4HeaderFields)
    ensures
        internet_checksum(
            ipv4_header_bytes(Ipv4Header { fields: h, header_checksum: spec_ip_checksum(h) }),
        ) == 0,
{
    let s = ipv4_header_bytes(unsummed_ipv4_header(h));
    law_checksum_field_verifies(s, 10);
    assert(put_be16(s, 10, spec_ip_checksum(h)) =~= ipv4_header_bytes(
        Ipv4Header { fields: h, header_checksum: spec_ip_checksum(h) },
    ));
}

/// The TCP length that the pseudo-header announces: four bytes per word
/// of data offset plus the payload, cut to 16 bits.
pub open spec fn tcp_length_of(h: TCPHeader, payload_len: nat) -> u16 {
    ((h.data_offset as int * 4 + payload_len) % 0x1_0000) as u16
}

/// The pseudo-header that the TCP and UDP checksums cover.
pub open spec fn pseudo_header(src_ip: [u8; 4], dst_ip: [u8; 4], protocol: u8, len: u16) -> Seq<u8> {
    src_ip@ + dst_ip@ + seq![0u8, protocol] + be16(len)
}

/// The pseudo-header reads back as 12 bytes: the source address, the
/// destination address, a zero byte, the protocol number and the length.
pub proof fn law_pseudo_header_layout(src_ip: [u8; 4], dst_ip: [u8; 4], protocol: u8, len: u16)
    ensures
        ({
            let p = pseudo_header(src_ip, dst_ip, protocol, len);
            &&& p.len() == 12
            &&& ip_at(p, 0) == src_ip
            &&& ip_at(p, 4) == dst_ip
            &&& p[8] == 0
            &&& p[9] == protocol
            &&& u16_at(p, 10) == len
        }),
{
    let p = pseudo_header(src_ip, dst_ip, protocol, len);
    assert(p.subrange(0, 4) =~= src_ip@);
    assert(p.subrange(4, 8) =~= dst_ip@);
    assert(p.subrange(10, 12) =~= be16(len));
    lemma_ip_roundtrip(src_ip, p, 0);
    lemma_ip_roundtrip(dst_ip, p, 4);
    lemma_be16_roundtrip(len, p, 10);
}

/// The bytes that the checksum of a TCP segment covers, with the segment's
/// checksum field holding `field`.
pub open spec fn tcp_checksum_input(src_ip: [u8; 4], dst_ip: [u8; 4], h: TCPHeader, payload: Seq<u8>, field: u16) -> Seq<u8> {
    pseudo_header(src_ip, dst_ip, 6, tcp_length_of(h, payload.len())) + tcp_header_bytes(
        TCPHeader { checksum: field, ..h },
    ) + payload
}

/// The checksum of a TCP segment, computed with a zero checksum field.
pub open spec fn spec_tcp_checksum(src_ip: [u8; 4], dst_ip: [u8; 4], h: TCPHeader, payload: Seq<u8>) -> u16 {
    internet_checksum(tcp_checksum_input(src_ip, dst_ip, h, payload, 0))
}

/// Computes the checksum of the segment `tcp` sent from `src_ip` to `dst_ip`.
pub fn tcp_checksum(src_ip: [u8; 4], dst_ip: [u8; 4], tcp: &TCPPacket) -> (r: u16)
    requires
        sum_fits(tcp_checksum_input(src_ip, dst_ip, tcp.header, tcp.payload@, 0)),
    ensures
        r == spec_tcp_checksum(src_ip, dst_ip, tcp.header, tcp.payload@),
        r == internet_checksum(
            src_ip@ + dst_ip@ + seq![0u8, 6u8] + be16(
                ((tcp.header.data_offset as int * 4 + tcp.payload@.len()) % 0x1_0000) as u16,
            ) + tcp_header_bytes(TCPHeader { checksum: 0, ..tcp.header }) + tcp.payload@,
        ),
{
    let tcp_len = (((tcp.header.data_offset as u128) * 4 + tcp.payload.len() as u128) % 0x1_0000) as u16;
    let mut buf: Vec<u8> = Vec::new();
    push_bytes(&mut buf, &src_ip);
    push_bytes(&mut buf, &dst_ip);
    buf.push(0);
    buf.push(6);
    push_be16(&mut buf, tcp_len);
    let mut header = tcp.header;
    header.checksum = 0;
    let header_bytes = serialize_tcp_header(&header);
    push_bytes(&mut buf, header_bytes.as_slice());
    push_bytes(&mut buf, tcp.payload.as_slice());
    assert(buf@ =~= tcp_checksum_input(src_ip, dst_ip, tcp.header, tcp.payload@, 0));
    checksum(buf.as_slice())
}

/// A segment whose checksum field holds `tcp_checksum` of the segment has
/// a zero checksum over the pseudo-header and the segment.
pub proof fn law_tcp_checksum_verifies(src_ip: [u8; 4], dst_ip: [u8; 4], h: TCPHeader, payload: Seq<u8>)
    ensures
        internet_checksum(
            tcp_checksum_input(
                src_ip,
                dst_ip,
                h,
                payload,
                spec_tcp_checksum(src_ip, dst_ip, h, payload),
            ),
        ) == 0,
{
    let s = tcp_checksum_input(src_ip, dst_ip, h, payload, 0);
    let c = spec_tcp_checksum(src_ip, dst_ip, h, payload);
    law_checksum_field_verifies(s, 28);
    assert(put_be16(s, 28, c) =~= tcp_checksum_input(src_ip, dst_ip, h, payload, c));
}

/// The UDP length that `udp_checksum` uses: 8 plus the payload length cut to 16 bits.
pub open spec fn udp_length_of(payload_len: nat) -> u16 {
    (8 + payload_len % 0x1_0000) as u16
}

/// The bytes that the checksum of a UDP datagram covers, with the
/// datagram's checksum field holding `field`: the pseudo-header, the ports,
/// the length as `udp_length_of` counts it (twice: in the pseudo-header and
/// in the header), the field, and the data.
pub open spec fn udp_checksum_input(src_ip: [u8; 4], dst_ip: [u8; 4], src_port: u16, dst_port: u16, payload: Seq<u8>, field: u16) -> Seq<u8> {
    let len = udp_length_of(payload.len());
    pseudo_header(src_ip, dst_ip, 17, len) + be16(src_port) + be16(dst_port) + be16(len) + be16(
        field,
    ) + payload
}

/// The checksum of a UDP datagram, computed with a zero checksum field.
pub open spec fn spec_udp_checksum(src_ip: [u8; 4], dst_ip: [u8; 4], src_port: u16, dst_port: u16, payload: Seq<u8>) -> u16 {
    internet_checksum(udp_checksum_input(src_ip, dst_ip, src_port, dst_port, payload, 0))
}

/// Computes the checksum of the datagram `udp` sent from `src_ip` to `dst_ip`.
pub fn udp_checksum(src_ip: [u8; 4], dst_ip: [u8; 4], udp: &UDPPacket) -> (r: u16)
    requires
        udp.payload@.len() % 0x1_0000 <= 0xfff7,
        sum_fits(
            udp_checksum_input(
                src_ip,
                dst_ip,
                udp.header.src_port,
                udp.header.dst_port,
                udp.payload@,
                0,
            ),
        ),
    ensures
        r == spec_udp_checksum(
            src_ip,
            dst_ip,
            udp.header.src_port,
            udp.header.dst_port,
            udp.payload@,
        ),
        r == internet_checksum(
            src_ip@ + dst_ip@ + seq![0u8, 17u8] + be16((8 + udp.payload@.len() % 0x1_0000) as u16)
                + be16(udp.header.src_port) + be16(udp.header.dst_port) + be16(
                (8 + udp.payload@.len() % 0x1_0000) as u16,
            ) + be16(0) + udp.payload@,
        ),
{
    let udp_len: u16 = 8 + (udp.payload.len() % 0x1_0000) as u16;
    let mut buf: Vec<u8> = Vec::new();
    push_bytes(&mut buf, &src_ip);
    push_bytes(&mut buf, &dst_ip);
    buf.push(0);
    buf.push(17);
    push_be16(&mut buf, udp_len);
    push_be16(&mut buf, udp.header.src_port);
    push_be16(&mut buf, udp.header.dst_port);
    push_be16(&mut buf, udp_len);
    push_be16(&mut buf, 0);
    push_bytes(&mut buf, udp.payload.as_slice());
    assert(buf@ =~= udp_checksum_input(
        src_ip,
        dst_ip,
        udp.header.src_port,
        udp.header.dst_port,
        udp.payload@,
        0,
    ));
    checksum(buf.as_slice())
}

/// A datagram whose checksum field holds `udp_checksum` of the datagram has
/// a zero checksum over the pseudo-header and the datagram.
pub proof fn law_udp_checksum_verifies(src_ip: [u8; 4], dst_ip: [u8; 4], src_port: u16, dst_port: u16, payload: Seq<u8>)
    ensures
        internet_checksum(
            udp_checksum_input(
                src_ip,
                dst_ip,
                src_port,
                dst_port,
                payload,
                spec_udp_checksum(src_ip, dst_ip, src_port, dst_port, payload),
            ),
        ) == 0,
{
    let s = udp_checksum_input(src_ip, dst_ip, src_port, dst_port, payload, 0);
    let c = spec_udp_checksum(src_ip, dst_ip, src_port, dst_port, payload);
    law_checksum_field_verifies(s, 18);
    assert(put_be16(s, 18, c) =~= udp_checksum_input(src_ip, dst_ip, src_port, dst_port, payload, c));
}

} // verus!
