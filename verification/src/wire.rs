//! Byte-level building blocks of the wire formats: big-endian integers and
//! fixed-size address fields, read from and appended to byte buffers.
use vstd::prelude::*;

verus! {

/// The two bytes of `v` in network (big-endian) order.
pub open spec fn be16(v: u16) -> Seq<u8> {
    seq![(v / 0x100) as u8, (v % 0x100) as u8]
}

/// The four bytes of `v` in network (big-endian) order.
pub open spec fn be32(v: u32) -> Seq<u8> {
    seq![
        (v / 0x100_0000) as u8,
        ((v / 0x1_0000) % 0x100) as u8,
        ((v / 0x100) % 0x100) as u8,
        (v % 0x100) as u8,
    ]
}

/// The big-endian 16-bit value stored at `s[i]`, `s[i + 1]`.
pub open spec fn u16_at(s: Seq<u8>, i: int) -> u16 {
    (s[i] as int * 0x100 + s[i + 1] as int) as u16
}

/// The big-endian 32-bit value stored at `s[i] .. s[i + 4]`.
pub open spec fn u32_at(s: Seq<u8>, i: int) -> u32 {
    (s[i] as int * 0x100_0000 + s[i + 1] as int * 0x1_0000 + s[i + 2] as int * 0x100
        + s[i + 3] as int) as u32
}

/// The four bytes `s[i] .. s[i + 4]` as an array (an IPv4 address).
pub open spec fn ip_at(s: Seq<u8>, i: int) -> [u8; 4] {
    [s[i], s[i + 1], s[i + 2], s[i + 3]]
}

/// The six bytes `s[i] .. s[i + 6]` as an array (a MAC address).
pub open spec fn mac_at(s: Seq<u8>, i: int) -> [u8; 6] {
    [s[i], s[i + 1], s[i + 2], s[i + 3], s[i + 4], s[i + 5]]
}

/// Reading back the bytes of `be16(v)` gives `v`.
pub proof fn lemma_be16_roundtrip(v: u16, s: Seq<u8>, i: int)
    requires
        0 <= i,
        i + 2 <= s.len(),
        s.subrange(i, i + 2) == be16(v),
    ensures
        u16_at(s, i) == v,
{
    assert(s[i] == be16(v)[0]);
    assert(s[i + 1] == be16(v)[1]);
}

/// Reading back the bytes of `be32(v)` gives `v`.
pub proof fn lemma_be32_roundtrip(v: u32, s: Seq<u8>, i: int)
    requires
        0 <= i,
        i + 4 <= s.len(),
        s.subrange(i, i + 4) == be32(v),
    ensures
        u32_at(s, i) == v,
{
    assert(s[i] == be32(v)[0]);
    assert(s[i + 1] == be32(v)[1]);
    assert(s[i + 2] == be32(v)[2]);
    assert(s[i + 3] == be32(v)[3]);
    assert(v == (v / 0x100_0000) * 0x100_0000 + ((v / 0x1_0000) % 0x100) * 0x1_0000 + ((v
        / 0x100) % 0x100) * 0x100 + v % 0x100) by (bit_vector);
    assert(v / 0x100_0000 < 0x100) by (bit_vector);
}

/// Reading back the bytes of an address array gives the array.
pub proof fn lemma_ip_roundtrip(a: [u8; 4], s: Seq<u8>, i: int)
    requires
        0 <= i,
        i + 4 <= s.len(),
        s.subrange(i, i + 4) == a@,
    ensures
        ip_at(s, i) == a,
{
    assert(s[i] == a@[0]);
    assert(s[i + 1] == a@[1]);
    assert(s[i + 2] == a@[2]);
    assert(s[i + 3] == a@[3]);
    assert(ip_at(s, i)@ =~= a@);
}

/// Reading back the bytes of a MAC array gives the array.
pub proof fn lemma_mac_roundtrip(a: [u8; 6], s: Seq<u8>, i: int)
    requires
        0 <= i,
        i + 6 <= s.len(),
        s.subrange(i, i + 6) == a@,
    ensures
        mac_at(s, i) == a,
{
    assert(s[i] == a@[0]);
    assert(s[i + 5] == a@[5]);
    assert(mac_at(s, i)@ =~= a@);
}

/// The big-endian 16-bit value at `b[i]`.
pub fn read_u16(b: &[u8], i: usize) -> (r: u16)
    requires
        i + 2 <= b@.len(),
    ensures
        r == u16_at(b@, i as int),
{
    (b[i] as u16) * 0x100 + (b[i + 1] as u16)
}

/// The big-endian 32-bit value at `b[i]`.
pub fn read_u32(b: &[u8], i: usize) -> (r: u32)
    requires
        i + 4 <= b@.len(),
    ensures
        r == u32_at(b@, i as int),
{
    (b[i] as u32) * 0x100_0000 + (b[i + 1] as u32) * 0x1_0000 + (b[i + 2] as u32) * 0x100
        + (b[i + 3] as u32)
}

/// The four bytes at `b[i]`.
pub fn read_ip(b: &[u8], i: usize) -> (r: [u8; 4])
    requires
        i + 4 <= b@.len(),
    ensures
        r == ip_at(b@, i as int),
{
    [b[i], b[i + 1], b[i + 2], b[i + 3]]
}

/// The six bytes at `b[i]`.
pub fn read_mac(b: &[u8], i: usize) -> (r: [u8; 6])
    requires
        i + 6 <= b@.len(),
    ensures
        r == mac_at(b@, i as int),
{
    [b[i], b[i + 1], b[i + 2], b[i + 3], b[i + 4], b[i + 5]]
}

/// Appends `v` in big-endian order.
pub fn push_be16(buf: &mut Vec<u8>, v: u16)
    ensures
        final(buf)@ == old(buf)@ + be16(v),
{
    buf.push((v / 0x100) as u8);
    buf.push((v % 0x100) as u8);
    assert(final(buf)@ =~= old(buf)@ + be16(v));
}

/// Appends `v` in big-endian order.
pub fn push_be32(buf: &mut Vec<u8>, v: u32)
    ensures
        final(buf)@ == old(buf)@ + be32(v),
{
    buf.push((v / 0x100_0000) as u8);
    buf.push(((v / 0x1_0000) % 0x100) as u8);
    buf.push(((v / 0x100) % 0x100) as u8);
    buf.push((v % 0x100) as u8);
    assert(final(buf)@ =~= old(buf)@ + be32(v));
}

/// Appends the bytes of `s`.
pub fn push_bytes(buf: &mut Vec<u8>, s: &[u8])
    ensures
        final(buf)@ == old(buf)@ + s@,
{
    buf.extend_from_slice(s);
    assert(final(buf)@ =~= old(buf)@ + s@);
}

/// A fresh vector holding `s[from..to]`.
pub fn copy_range(s: &[u8], from: usize, to: usize) -> (r: Vec<u8>)
    requires
        from <= to <= s@.len(),
    ensures
        r@ == s@.subrange(from as int, to as int),
{
    let mut r: Vec<u8> = Vec::new();
    push_bytes(&mut r, &s[from..to]);
    assert(r@ =~= s@.subrange(from as int, to as int));
    r
}

} // verus!
