//! TCP segments: header fields, flags, parsing and serialisation, and the
//! per-connection state this host keeps.
use crate::wire::{be16, be32, copy_range, lemma_be16_roundtrip, lemma_be32_roundtrip, push_be16, push_be32, read_u16, read_u32, u16_at, u32_at};
use vstd::prelude::*;

verus! {

pub const SYN: u16 = 0b0000_0000_0000_0010;

pub const ACK: u16 = 0b0000_0000_0001_0000;

pub const FIN: u16 = 0b0000_0000_0000_0001;

pub const RST: u16 = 0b0000_0000_0000_0100;

pub const PSH: u16 = 0b0000_0000_0000_1000;

pub const URG: u16 = 0b0000_0000_0010_0000;

/// A TCP header. `data_offset` is as `parse_tcp` reads it: the header
/// length in bytes; `create_packet` writes its low four bits as the data
/// offset field, which counts 32-bit words.
#[derive(Clone, Copy, Debug, PartialEq, Eq)]
pub struct TCPHeader {
    pub src_port: u16,
    pub dst_port: u16,
    pub seq_num: u32,
    pub ack_num: u32,
    pub data_offset: u8,
    pub flags: u16,
    pub window: u16,
    pub checksum: u16,
    pub urgent_ptr: u16,
}

/// The states of a TCP connection.
#[derive(Clone, Copy, Debug, PartialEq, Eq, Structural)]
pub enum TCPState {
    Closed,
    SynSent,
    FinWait1,
    FinWait2,
    CloseWait,
    Closing,
    LastAck,
    TimeWait,
    SynReceived,
    Established,
}

/// The transmission control block of one connection.
#[derive(Clone, Copy, Debug, PartialEq, Eq)]
pub struct TCB {
    pub state: TCPState,
    pub snd_una: u32,
    pub snd_nxt: u32,
    pub rcv_nxt: u32,
    pub irs: u32,
    pub iss: u32,
}

/// The four numbers that name a connection, seen from this host: its own
/// address and port, and the peer's.
#[derive(Clone, Copy, Debug, PartialEq, Eq, Hash)]
pub struct ConnectionKey {
    pub src_ip: [u8; 4],
    pub src_port: u16,
    pub dst_ip: [u8; 4],
    pub dst_port: u16,
}

/// A TCP segment: its header and the data after the header.
#[derive(Debug, PartialEq, Eq)]
pub struct TCPPacket {
    pub header: TCPHeader,
    pub payload: Vec<u8>,
}

/// Whether `incoming` has any of the bits of `mask` set.
pub open spec fn has_flag(incoming: u16, mask: u16) -> bool {
    incoming & mask != 0
}

/// The header length in bytes that `s[12]` announces.
pub open spec fn tcp_data_offset_of(s: Seq<u8>) -> u8 {
    ((s[12] >> 4u8) * 4) as u8
}

/// The conditions under which `parse_tcp` accepts `s`: a full 20-byte
/// header, and data at least as long as the header length it announces.
pub open spec fn tcp_accepts(s: Seq<u8>) -> bool {
    s.len() >= 20 && s.len() >= tcp_data_offset_of(s)
}

/// The header that `parse_tcp` reads from the first 20 bytes of `s`.
pub open spec fn tcp_header_of(s: Seq<u8>) -> TCPHeader {
    TCPHeader {
        src_port: u16_at(s, 0),
        dst_port: u16_at(s, 2),
        seq_num: u32_at(s, 4),
        ack_num: u32_at(s, 8),
        data_offset: tcp_data_offset_of(s),
        flags: (((s[12] as u16) & 0x01u16) << 8u16) | (s[13] as u16),
        window: u16_at(s, 14),
        checksum: u16_at(s, 16),
        urgent_ptr: u16_at(s, 18),
    }
}

/// The 16 bits that hold the data offset (top four bits) and the nine flag bits.
pub open spec fn offset_flags_word(data_offset: u8, flags: u16) -> u16 {
    ((data_offset as u16) << 12u16) | (flags & 0x1ffu16)
}

/// The 20 bytes of a TCP header, as `serialize_tcp_header` writes them.
pub open spec fn tcp_header_bytes(h: TCPHeader) -> Seq<u8> {
    be16(h.src_port) + be16(h.dst_port) + be32(h.seq_num) + be32(h.ack_num) + be16(
        offset_flags_word(h.data_offset, h.flags),
    ) + be16(h.window) + be16(h.checksum) + be16(h.urgent_ptr)
}

/// A header written by `serialize_tcp_header`, followed by data, is read
/// back by `parse_tcp` with the same fields, except that the data offset is
/// read as a length in bytes: four times the number of words written.
/// This holds when the offset and flags fit their bits and the data is at
/// least as long as the announced header; with an offset of five words the
/// data after the header is read back as the payload.
pub proof fn law_tcp_roundtrip(h: TCPHeader, payload: Seq<u8>)
    requires
        h.data_offset < 16,
        h.flags < 0x200,
        h.data_offset * 4 <= 20 + payload.len(),
    ensures
        tcp_accepts(tcp_header_bytes(h) + payload),
        tcp_header_of(tcp_header_bytes(h) + payload) == (TCPHeader {
            data_offset: (h.data_offset * 4) as u8,
            ..h
        }),
        h.data_offset == 5 ==> (tcp_header_bytes(h) + payload).skip(20) == payload,
{
    let s = tcp_header_bytes(h) + payload;
    let w = offset_flags_word(h.data_offset, h.flags);
    let d = h.data_offset;
    let f = h.flags;
    assert(s.subrange(0, 2) =~= be16(h.src_port));
    assert(s.subrange(2, 4) =~= be16(h.dst_port));
    assert(s.subrange(4, 8) =~= be32(h.seq_num));
    assert(s.subrange(8, 12) =~= be32(h.ack_num));
    assert(s.subrange(14, 16) =~= be16(h.window));
    assert(s.subrange(16, 18) =~= be16(h.checksum));
    assert(s.subrange(18, 20) =~= be16(h.urgent_ptr));
    lemma_be16_roundtrip(h.src_port, s, 0);
    lemma_be16_roundtrip(h.dst_port, s, 2);
    lemma_be32_roundtrip(h.seq_num, s, 4);
    lemma_be32_roundtrip(h.ack_num, s, 8);
    lemma_be16_roundtrip(h.window, s, 14);
    lemma_be16_roundtrip(h.checksum, s, 16);
    lemma_be16_roundtrip(h.urgent_ptr, s, 18);
    assert(s[12] == (w / 0x100) as u8);
    assert(s[13] == (w % 0x100) as u8);
    assert(((w / 0x100) as u8) >> 4u8 == d) by (bit_vector)
        requires
            w == ((d as u16) << 12u16) | (f & 0x1ffu16),
            d < 16,
    ;
    assert((((((w / 0x100) as u8) as u16) & 0x01u16) << 8u16) | (((w % 0x100) as u8) as u16)
        == f) by (bit_vector)
        requires
            w == ((d as u16) << 12u16) | (f & 0x1ffu16),
            f < 0x200,
    ;
    if d == 5 {
        assert(s.skip(20) =~= payload);
    }
}

/// Parses a TCP segment; the payload starts at the announced header length.
pub fn parse_tcp(buf: &[u8]) -> (r: Option<TCPPacket>)
    ensures
        r is Some <==> tcp_accepts(buf@),
        r is Some <==> (buf@.len() >= 20 && buf@.len() >= (buf@[12] >> 4u8) * 4),
        r matches Some(p) ==> p.header == tcp_header_of(buf@) && p.payload@ == buf@.skip(
            tcp_data_offset_of(buf@) as int,
        ),        r matches Some(p) ==> {
            &&& p.header.src_port == u16_at(buf@, 0)
            &&& p.header.dst_port == u16_at(buf@, 2)
            &&& p.header.seq_num == u32_at(buf@, 4)
            &&& p.header.ack_num == u32_at(buf@, 8)
            &&& p.header.data_offset == (buf@[12] >> 4u8) * 4
            &&& p.header.flags == (((buf@[12] as u16) & 0x01u16) << 8u16) | (buf@[13] as u16)
            &&& p.header.window == u16_at(buf@, 14)
            &&& p.header.checksum == u16_at(buf@, 16)
            &&& p.header.urgent_ptr == u16_at(buf@, 18)
            &&& p.payload@ == buf@.skip((buf@[12] >> 4u8) * 4)
        },
{
    if buf.len() < 20 {
        return None;
    }
    let b12 = buf[12];
    assert(b12 >> 4u8 <= 15) by (bit_vector);
    let data_offset = (b12 >> 4) * 4;
    if buf.len() < data_offset as usize {
        return None;
    }
    let header = TCPHeader {
        src_port: read_u16(buf, 0),
        dst_port: read_u16(buf, 2),
        seq_num: read_u32(buf, 4),
        ack_num: read_u32(buf, 8),
        data_offset,
        flags: (((buf[12] as u16) & 0x01) << 8) | (buf[13] as u16),
        window: read_u16(buf, 14),
        checksum: read_u16(buf, 16),
        urgent_ptr: read_u16(buf, 18),
    };
    let payload = copy_range(buf, data_offset as usize, buf.len());
    assert(payload@ =~= buf@.skip(data_offset as int));
    Some(TCPPacket { header, payload })
}

/// Writes the 20-byte TCP header.
pub fn serialize_tcp_header(header: &TCPHeader) -> (r: Vec<u8>)
    ensures
        r@ == tcp_header_bytes(*header),
        r@.len() == 20,
        u16_at(r@, 0) == header.src_port,
        u16_at(r@, 2) == header.dst_port,
        u32_at(r@, 4) == header.seq_num,
        u32_at(r@, 8) == header.ack_num,
        u16_at(r@, 14) == header.window,
        u16_at(r@, 16) == header.checksum,
        u16_at(r@, 18) == header.urgent_ptr,
        header.data_offset < 16 ==> r@[12] >> 4u8 == header.data_offset,
        (((r@[12] as u16) & 0x01u16) << 8u16) | (r@[13] as u16) == header.flags & 0x1ffu16,
{
    let mut buf: Vec<u8> = Vec::new();
    push_be16(&mut buf, header.src_port);
    push_be16(&mut buf, header.dst_port);
    push_be32(&mut buf, header.seq_num);
    push_be32(&mut buf, header.ack_num);
    let data_offset_and_flags: u16 = ((header.data_offset as u16) << 12) | (header.flags
        & 0x1FF);
    push_be16(&mut buf, data_offset_and_flags);
    push_be16(&mut buf, header.window);
    push_be16(&mut buf, header.checksum);
    push_be16(&mut buf, header.urgent_ptr);
    assert(buf@ =~= tcp_header_bytes(*header));
    proof {
        let h = *header;
        let b = buf@;
        assert(b.subrange(0, 2) =~= be16(h.src_port));
        assert(b.subrange(2, 4) =~= be16(h.dst_port));
        assert(b.subrange(4, 8) =~= be32(h.seq_num));
        assert(b.subrange(8, 12) =~= be32(h.ack_num));
        assert(b.subrange(14, 16) =~= be16(h.window));
        assert(b.subrange(16, 18) =~= be16(h.checksum));
        assert(b.subrange(18, 20) =~= be16(h.urgent_ptr));
        lemma_be16_roundtrip(h.src_port, b, 0);
        lemma_be16_roundtrip(h.dst_port, b, 2);
        lemma_be32_roundtrip(h.seq_num, b, 4);
        lemma_be32_roundtrip(h.ack_num, b, 8);
        lemma_be16_roundtrip(h.window, b, 14);
        lemma_be16_roundtrip(h.checksum, b, 16);
        lemma_be16_roundtrip(h.urgent_ptr, b, 18);
        let w = offset_flags_word(h.data_offset, h.flags);
        let d = h.data_offset;
        let f = h.flags;
        assert(b[12] == (w / 0x100) as u8);
        assert(b[13] == (w % 0x100) as u8);
        if d < 16 {
            assert(((w / 0x100) as u8) >> 4u8 == d) by (bit_vector)
                requires
                    w == ((d as u16) << 12u16) | (f & 0x1ffu16),
                    d < 16,
            ;
        }
        assert((((((w / 0x100) as u8) as u16) & 0x01u16) << 8u16) | (((w % 0x100) as u8) as u16)
            == f & 0x1ffu16) by (bit_vector)
            requires
                w == ((d as u16) << 12u16) | (f & 0x1ffu16),
        ;
    }
    buf
}

/// Whether `incoming_flags` has any of the bits of `tcp_flags` set.
pub fn check_flags(incoming_flags: &u16, tcp_flags: u16) -> (r: bool)
    ensures
        r == has_flag(*incoming_flags, tcp_flags),
{
    *incoming_flags & tcp_flags != 0
}

/// One of the six classic TCP flags.
#[derive(Clone, Copy, Debug, PartialEq, Eq, Structural)]
pub enum TcpFlag {
    Urg,
    Ack,
    Psh,
    Rst,
    Syn,
    Fin,
}

impl TcpFlag {
    /// The flag's name as it is printed.
    pub fn name(&self) -> (r: &'static str)
        ensures
            r@ == match *self {
                TcpFlag::Urg => "URG"@,
                TcpFlag::Ack => "ACK"@,
                TcpFlag::Psh => "PSH"@,
                TcpFlag::Rst => "RST"@,
                TcpFlag::Syn => "SYN"@,
                TcpFlag::Fin => "FIN"@,
            },
    {
        match self {
            TcpFlag::Urg => "URG",
            TcpFlag::Ack => "ACK",
            TcpFlag::Psh => "PSH",
            TcpFlag::Rst => "RST",
            TcpFlag::Syn => "SYN",
            TcpFlag::Fin => "FIN",
        }
    }
}

/// `flag` when bit `mask` of `f` is set, nothing otherwise.
pub open spec fn flag_if(f: u16, mask: u16, flag: TcpFlag) -> Seq<TcpFlag> {
    if f & mask != 0 {
        seq![flag]
    } else {
        seq![]
    }
}

/// The flags of a segment in the order they are printed, joined by `-`:
/// the usual combinations by name (SYN-ACK, FIN-ACK, PSH-ACK, ...), any other
/// combination of the six low flag bits in the order URG, ACK, PSH, RST, SYN, FIN.
pub open spec fn flag_label(flags: u16) -> Seq<TcpFlag> {
    let f = flags & 0x3fu16;
    if f == 0x02 {
        seq![TcpFlag::Syn]
    } else if f == 0x12 {
        seq![TcpFlag::Syn, TcpFlag::Ack]
    } else if f == 0x10 {
        seq![TcpFlag::Ack]
    } else if f == 0x01 {
        seq![TcpFlag::Fin]
    } else if f == 0x11 {
        seq![TcpFlag::Fin, TcpFlag::Ack]
    } else if f == 0x04 {
        seq![TcpFlag::Rst]
    } else if f == 0x18 {
        seq![TcpFlag::Psh, TcpFlag::Ack]
    } else {
        flag_if(f, 0x20, TcpFlag::Urg) + flag_if(f, 0x10, TcpFlag::Ack) + flag_if(
            f,
            0x08,
            TcpFlag::Psh,
        ) + flag_if(f, 0x04, TcpFlag::Rst) + flag_if(f, 0x02, TcpFlag::Syn) + flag_if(
            f,
            0x01,
            TcpFlag::Fin,
        )
    }
}

/// The flags of a segment in the order they are printed.
pub fn tcp_flag_label(flags: u16) -> (r: Vec<TcpFlag>)
    ensures
        r@ == flag_label(flags),
{
    let f = flags & 0x3f;
    if f == 0x02 {
        return vec![TcpFlag::Syn];
    } else if f == 0x12 {
        return vec![TcpFlag::Syn, TcpFlag::Ack];
    } else if f == 0x10 {
        return vec![TcpFlag::Ack];
    } else if f == 0x01 {
        return vec![TcpFlag::Fin];
    } else if f == 0x11 {
        return vec![TcpFlag::Fin, TcpFlag::Ack];
    } else if f == 0x04 {
        return vec![TcpFlag::Rst];
    } else if f == 0x18 {
        return vec![TcpFlag::Psh, TcpFlag::Ack];
    }
    let mut s: Vec<TcpFlag> = Vec::new();
    if f & 0x20 != 0 {
        s.push(TcpFlag::Urg);
    }
    if f & 0x10 != 0 {
        s.push(TcpFlag::Ack);
    }
    if f & 0x08 != 0 {
        s.push(TcpFlag::Psh);
    }
    if f & 0x04 != 0 {
        s.push(TcpFlag::Rst);
    }
    if f & 0x02 != 0 {
        s.push(TcpFlag::Syn);
    }
    if f & 0x01 != 0 {
        s.push(TcpFlag::Fin);
    }
    assert(s@ =~= flag_label(flags));
    s
}

} // verus!
