//! IPv4 headers: their fields, how they are read from and written to bytes.
use crate::wire::{lemma_be16_roundtrip, lemma_ip_roundtrip, be16, copy_range, ip_at, push_be16, push_bytes, read_ip, read_u16, u16_at};
use vstd::prelude::*;

verus! {

/// The IPv4 address of this host.
pub const MY_IP: [u8; 4] = [10, 0, 0, 2];

/// The fields of an IPv4 header other than its checksum.
#[derive(Clone, Copy, Debug, PartialEq, Eq)]
pub struct Ipv4HeaderFields {
    pub version: u8,
    pub ihl: u8,
    pub tos: u8,
    pub total_length: u16,
    pub identification: u16,
    pub flags: u8,
    pub fragment_offset: u16,
    pub ttl: u8,
    pub protocol: u8,
    pub source: [u8; 4],
    pub destination: [u8; 4],
}

/// An IPv4 header: its fields and its checksum.
#[derive(Clone, Copy, Debug, PartialEq, Eq)]
pub struct Ipv4Header {
    pub fields: Ipv4HeaderFields,
    pub header_checksum: u16,
}

/// An IPv4 packet: its header and the bytes it carries.
#[derive(Debug, PartialEq, Eq)]
pub struct Ipv4Packet {
    pub header: Ipv4Header,
    pub payload: Vec<u8>,
}

/// The first header byte: the version in the high nibble, or-ed with `ihl`.
pub open spec fn version_ihl_byte(version: u8, ihl: u8) -> u8 {
    (version << 4u8) | ihl
}

/// The 16 bits that hold the flags (top three bits) and the fragment offset.
pub open spec fn flags_fragment_word(flags: u8, fragment_offset: u16) -> u16 {
    ((flags as u16) << 13u16) | fragment_offset
}

/// The 20 bytes of an IPv4 header without options, as `serialize_ipv4_header` writes them.
pub open spec fn ipv4_header_bytes(h: Ipv4Header) -> Seq<u8> {
    seq![version_ihl_byte(h.fields.version, h.fields.ihl), h.fields.tos] + be16(
        h.fields.total_length,
    ) + be16(h.fields.identification) + be16(
        flags_fragment_word(h.fields.flags, h.fields.fragment_offset),
    ) + seq![h.fields.ttl, h.fields.protocol] + be16(h.header_checksum) + h.fields.source@
        + h.fields.destination@
}

/// The header length in bytes that the first byte of `s` announces.
pub open spec fn ipv4_header_len(s: Seq<u8>) -> int {
    (s[0] & 0x0fu8) as int * 4
}

/// The conditions under which `parse_ipv4` accepts `s`: a full header of
/// version 4 whose announced header length and total length fit the data.
pub open spec fn ipv4_accepts(s: Seq<u8>) -> bool {
    &&& s.len() >= 20
    &&& s[0] >> 4u8 == 4
    &&& s[0] & 0x0fu8 >= 5
    &&& ipv4_header_len(s) <= s.len()
    &&& ipv4_header_len(s) <= u16_at(s, 2)
    &&& u16_at(s, 2) <= s.len()
}

/// The header that `parse_ipv4` reads from the first 20 bytes of `s`.
pub open spec fn ipv4_header_of(s: Seq<u8>) -> Ipv4Header {
    Ipv4Header {
        fields: Ipv4HeaderFields {
            version: s[0] >> 4u8,
            ihl: s[0] & 0x0fu8,
            tos: s[1],
            total_length: u16_at(s, 2),
            identification: u16_at(s, 4),
            flags: s[6] >> 5u8,
            fragment_offset: (((s[6] as u16) & 0x1fu16) << 8u16) | (s[7] as u16),
            ttl: s[8],
            protocol: s[9],
            source: ip_at(s, 12),
            destination: ip_at(s, 16),
        },
        header_checksum: u16_at(s, 10),
    }
}

/// The payload of an accepted packet: from the end of the header up to the total length.
pub open spec fn ipv4_payload_of(s: Seq<u8>) -> Seq<u8> {
    s.subrange(ipv4_header_len(s), u16_at(s, 2) as int)
}

/// The layout of the first header byte: version and header length are read back.
proof fn lemma_version_ihl(version: u8, ihl: u8)
    requires
        version < 16,
        ihl < 16,
    ensures
        version_ihl_byte(version, ihl) >> 4u8 == version,
        version_ihl_byte(version, ihl) & 0x0fu8 == ihl,
{
    assert(((version << 4u8) | ihl) >> 4u8 == version) by (bit_vector)
        requires
            version < 16,
            ihl < 16,
    ;
    assert(((version << 4u8) | ihl) & 0x0fu8 == ihl) by (bit_vector)
        requires
            ihl < 16,
    ;
}

/// The layout of the flags/fragment word: both fields are read back from its two bytes.
proof fn lemma_flags_fragment(flags: u8, fragment_offset: u16)
    requires
        flags < 8,
        fragment_offset < 0x2000,
    ensures
        ({
            let w = flags_fragment_word(flags, fragment_offset);
            let hi = (w / 0x100) as u8;
            let lo = (w % 0x100) as u8;
            &&& hi >> 5u8 == flags
            &&& (((hi as u16) & 0x1fu16) << 8u16) | (lo as u16) == fragment_offset
        }),
{
    let w = flags_fragment_word(flags, fragment_offset);
    assert(w == ((flags as u16) << 13u16) | fragment_offset);
    let hi = (w / 0x100) as u8;
    let lo = (w % 0x100) as u8;
    assert(((w / 0x100) as u8) >> 5u8 == flags) by (bit_vector)
        requires
            w == ((flags as u16) << 13u16) | fragment_offset,
            flags < 8,
            fragment_offset < 0x2000,
    ;
    assert((((((w / 0x100) as u8) as u16) & 0x1fu16) << 8u16) | (((w % 0x100) as u8) as u16)
        == fragment_offset) by (bit_vector)
        requires
            w == ((flags as u16) << 13u16) | fragment_offset,
            fragment_offset < 0x2000,
    ;
}

/// A header written by `serialize_ipv4_header`, followed by its payload, is
/// read back by `parse_ipv4` as the same header and payload, when the header
/// announces version 4, no options, and a total length that counts exactly
/// the header and the payload, and its flags and fragment offset fit their bits.
pub proof fn law_ipv4_roundtrip(h: Ipv4Header, payload: Seq<u8>)
    requires
        h.fields.version == 4,
        h.fields.ihl == 5,
        h.fields.flags < 8,
        h.fields.fragment_offset < 0x2000,
        h.fields.total_length == 20 + payload.len(),
    ensures
        ipv4_accepts(ipv4_header_bytes(h) + payload),
        ipv4_header_of(ipv4_header_bytes(h) + payload) == h,
        ipv4_payload_of(ipv4_header_bytes(h) + payload) == payload,
{
    let s = ipv4_header_bytes(h) + payload;
    let f = h.fields;
    lemma_version_ihl(f.version, f.ihl);
    lemma_flags_fragment(f.flags, f.fragment_offset);
    assert(s.subrange(2, 4) =~= be16(f.total_length));
    assert(s.subrange(4, 6) =~= be16(f.identification));
    assert(s.subrange(10, 12) =~= be16(h.header_checksum));
    assert(s.subrange(12, 16) =~= f.source@);
    assert(s.subrange(16, 20) =~= f.destination@);
    lemma_be16_roundtrip(f.total_length, s, 2);
    lemma_be16_roundtrip(f.identification, s, 4);
    lemma_be16_roundtrip(h.header_checksum, s, 10);
    lemma_ip_roundtrip(f.source, s, 12);
    lemma_ip_roundtrip(f.destination, s, 16);
    assert(s[0] == version_ihl_byte(f.version, f.ihl));
    assert(s[6] == (flags_fragment_word(f.flags, f.fragment_offset) / 0x100) as u8);
    assert(s[7] == (flags_fragment_word(f.flags, f.fragment_offset) % 0x100) as u8);
    assert(ipv4_header_of(s).fields == f);
    assert(ipv4_payload_of(s) =~= payload);
}

/// The total length field of a packet whose header (20 bytes, no options)
/// carries `payload_len` bytes, cut to 16 bits.
pub open spec fn ip_total_length_of(payload_len: nat) -> u16 {
    ((20 + payload_len) % 0x1_0000) as u16
}

/// Computes `ip_total_length_of(payload_len)`.
pub fn ip_total_length(payload_len: usize) -> (r: u16)
    ensures
        r == ip_total_length_of(payload_len as nat),
{
    ((20 + payload_len as u128) % 0x1_0000) as u16
}

/// Parses an IPv4 packet; options are skipped and bytes beyond the total
/// length are dropped.
pub fn parse_ipv4(buf: &[u8]) -> (r: Option<Ipv4Packet>)
    ensures
        r is Some <==> ipv4_accepts(buf@),
        r is Some <==> (buf@.len() >= 20 && buf@[0] >> 4u8 == 4 && buf@[0] & 0x0fu8 >= 5 && (
        buf@[0] & 0x0fu8) * 4 <= buf@.len() && (buf@[0] & 0x0fu8) * 4 <= u16_at(buf@, 2)
            && u16_at(buf@, 2) <= buf@.len()),
        r matches Some(p) ==> p.header == ipv4_header_of(buf@) && p.payload@ == ipv4_payload_of(
            buf@,
        ),
        r matches Some(p) ==> {
            &&& p.header.fields.version == buf@[0] >> 4u8
            &&& p.header.fields.ihl == buf@[0] & 0x0fu8
            &&& p.header.fields.tos == buf@[1]
            &&& p.header.fields.total_length == u16_at(buf@, 2)
            &&& p.header.fields.identification == u16_at(buf@, 4)
            &&& p.header.fields.ttl == buf@[8]
            &&& p.header.fields.protocol == buf@[9]
            &&& p.header.header_checksum == u16_at(buf@, 10)
            &&& p.header.fields.source == ip_at(buf@, 12)
            &&& p.header.fields.destination == ip_at(buf@, 16)
            &&& p.payload@ == buf@.subrange((buf@[0] & 0x0fu8) * 4, u16_at(buf@, 2) as int)
        },
{
    if buf.len() < 20 {
        return None;
    }
    let version = buf[0] >> 4;
    let ihl = buf[0] & 0x0f;
    if version != 4 {
        return None;
    }
    if ihl < 5 {
        return None;
    }
    let header_len = (ihl as usize) * 4;
    if buf.len() < header_len {
        return None;
    }
    let total_length = read_u16(buf, 2);
    if total_length < header_len as u16 {
        return None;
    }
    if total_length as usize > buf.len() {
        return None;
    }
    let payload = copy_range(buf, header_len, total_length as usize);
    Some(
        Ipv4Packet {
            header: Ipv4Header {
                fields: Ipv4HeaderFields {
                    version,
                    ihl,
                    tos: buf[1],
                    total_length,
                    identification: read_u16(buf, 4),
                    flags: buf[6] >> 5,
                    fragment_offset: (((buf[6] as u16) & 0x1f) << 8) | (buf[7] as u16),
                    ttl: buf[8],
                    protocol: buf[9],
                    source: read_ip(buf, 12),
                    destination: read_ip(buf, 16),
                },
                header_checksum: read_u16(buf, 10),
            },
            payload,
        },
    )
}

/// Writes the 20-byte IPv4 header (without options).
pub fn serialize_ipv4_header(header: &Ipv4Header) -> (r: Vec<u8>)
    ensures
        r@ == ipv4_header_bytes(*header),
        r@.len() == 20,
        r@[1] == header.fields.tos,
        u16_at(r@, 2) == header.fields.total_length,
        u16_at(r@, 4) == header.fields.identification,
        r@[8] == header.fields.ttl,
        r@[9] == header.fields.protocol,
        u16_at(r@, 10) == header.header_checksum,
        ip_at(r@, 12) == header.fields.source,
        ip_at(r@, 16) == header.fields.destination,
        header.fields.version < 16 && header.fields.ihl < 16 ==> r@[0] >> 4u8
            == header.fields.version && r@[0] & 0x0fu8 == header.fields.ihl,
        header.fields.flags < 8 && header.fields.fragment_offset < 0x2000 ==> r@[6] >> 5u8
            == header.fields.flags && (((r@[6] as u16) & 0x1fu16) << 8u16) | (r@[7] as u16)
            == header.fields.fragment_offset,
{
    let mut buf: Vec<u8> = Vec::new();
    buf.push((header.fields.version << 4) | header.fields.ihl);
    buf.push(header.fields.tos);
    push_be16(&mut buf, header.fields.total_length);
    push_be16(&mut buf, header.fields.identification);
    let flags_fragment = ((header.fields.flags as u16) << 13) | header.fields.fragment_offset;
    push_be16(&mut buf, flags_fragment);
    buf.push(header.fields.ttl);
    buf.push(header.fields.protocol);
    push_be16(&mut buf, header.header_checksum);
    push_bytes(&mut buf, &header.fields.source);
    push_bytes(&mut buf, &header.fields.destination);
    assert(buf@ =~= ipv4_header_bytes(*header));
    proof {
        let h = *header;
        let b = buf@;
        assert(b.subrange(2, 4) =~= be16(h.fields.total_length));
        assert(b.subrange(4, 6) =~= be16(h.fields.identification));
        assert(b.subrange(10, 12) =~= be16(h.header_checksum));
        assert(b.subrange(12, 16) =~= h.fields.source@);
        assert(b.subrange(16, 20) =~= h.fields.destination@);
        lemma_be16_roundtrip(h.fields.total_length, b, 2);
        lemma_be16_roundtrip(h.fields.identification, b, 4);
        lemma_be16_roundtrip(h.header_checksum, b, 10);
        lemma_ip_roundtrip(h.fields.source, b, 12);
        lemma_ip_roundtrip(h.fields.destination, b, 16);
        if h.fields.version < 16 && h.fields.ihl < 16 {
            lemma_version_ihl(h.fields.version, h.fields.ihl);
        }
        if h.fields.flags < 8 && h.fields.fragment_offset < 0x2000 {
            lemma_flags_fragment(h.fields.flags, h.fields.fragment_offset);
        }
    }
    buf
}

} // verus!
