//! The connections this host tracks and how each received segment moves
//! them: a passive opener that answers SYNs on listening ports, completes
//! the three-way handshake, and resets what it does not expect.
use crate::ip::ip::Ipv4HeaderFields;
use crate::tcp::send::syn_ack_header;
use crate::tcp::tcp::{check_flags, has_flag, ConnectionKey, TCPHeader, TCPState, ACK, RST, SYN, TCB};
use std::collections::{HashMap, HashSet};
use vstd::prelude::*;

verus! {

broadcast use vstd::std_specs::hash::group_hash_axioms;

/// What handling one segment led to.
#[derive(Clone, Copy, Debug, PartialEq, Eq, Structural)]
pub enum TcpEvent {
    /// A tracked connection received RST and is no longer tracked.
    ResetReceived,
    /// The peer acknowledged our SYN: the connection is established.
    HandshakeComplete,
    /// An ACK during the handshake acknowledged the wrong number: the
    /// connection is reset and no longer tracked.
    InvalidAck,
    /// A segment without ACK during the handshake: the connection is reset
    /// and no longer tracked.
    MissingAck,
    /// A tracked connection in a state whose segments are not handled yet;
    /// nothing changes.
    Unhandled(TCPState),
    /// No connection and no listener on the port: the segment is reset.
    PortClosed,
    /// A SYN on a listening port: a connection is tracked in SYN-RECEIVED
    /// and a SYN-ACK starting at the given sequence number is owed.
    Accepted(u32),
    /// Anything but a SYN for an unknown connection on a listening port:
    /// the segment is reset.
    Refused,
}

/// The connection that a segment belongs to, seen from this host.
pub open spec fn key_of(ip: Ipv4HeaderFields, tcp: TCPHeader) -> ConnectionKey {
    ConnectionKey {
        src_ip: ip.destination,
        src_port: tcp.dst_port,
        dst_ip: ip.source,
        dst_port: tcp.src_port,
    }
}

impl ConnectionKey {
    /// The connection that the segment `tcp`, carried by `ip`, belongs to.
    pub fn for_segment(ip: &Ipv4HeaderFields, tcp: &TCPHeader) -> (r: ConnectionKey)
        ensures
            r == key_of(*ip, *tcp),
            r.src_ip == ip.destination,
            r.src_port == tcp.dst_port,
            r.dst_ip == ip.source,
            r.dst_port == tcp.src_port,
    {
        ConnectionKey {
            src_ip: ip.destination,
            src_port: tcp.dst_port,
            dst_ip: ip.source,
            dst_port: tcp.src_port,
        }
    }
}

impl TcpEvent {
    /// Whether this host answers the segment with a RST.
    pub fn sends_rst(&self) -> (r: bool)
        ensures
            r <==> (*self is InvalidAck || *self is MissingAck || *self is PortClosed
                || *self is Refused),
    {
        match self {
            TcpEvent::InvalidAck | TcpEvent::MissingAck | TcpEvent::PortClosed
            | TcpEvent::Refused => true,
            _ => false,
        }
    }
}

/// The block of a connection opened by a SYN with sequence number `seq`,
/// answered with initial sequence number `iss`.
pub open spec fn new_tcb(iss: u32, seq: u32) -> TCB {
    TCB {
        state: TCPState::SynReceived,
        iss,
        snd_una: iss,
        snd_nxt: iss.wrapping_add(1),
        irs: seq,
        rcv_nxt: seq.wrapping_add(1),
    }
}

/// Whether a segment with header `h` for `key` opens a new connection:
/// the connection is unknown, the port listens, and the segment is a SYN
/// without ACK.
pub open spec fn opens_connection(conns: Map<ConnectionKey, TCB>, ports: Set<u16>, key: ConnectionKey, h: TCPHeader) -> bool {
    &&& !conns.contains_key(key)
    &&& ports.contains(h.dst_port)
    &&& has_flag(h.flags, SYN)
    &&& !has_flag(h.flags, ACK)
}

/// The tracked connections after a segment with header `h` for `key`
/// arrives, and what it led to; `iss` is the initial sequence number
/// used if the segment opens a connection.
pub open spec fn tcp_step(conns: Map<ConnectionKey, TCB>, ports: Set<u16>, key: ConnectionKey, h: TCPHeader, iss: u32) -> (Map<ConnectionKey, TCB>, TcpEvent) {
    if conns.contains_key(key) {
        let tcb = conns[key];
        if has_flag(h.flags, RST) {
            (conns.remove(key), TcpEvent::ResetReceived)
        } else if tcb.state == TCPState::SynReceived {
            if has_flag(h.flags, ACK) {
                if h.ack_num == tcb.snd_nxt {
                    (
                        conns.insert(
                            key,
                            TCB { state: TCPState::Established, snd_una: h.ack_num, ..tcb },
                        ),
                        TcpEvent::HandshakeComplete,
                    )
                } else {
                    (conns.remove(key), TcpEvent::InvalidAck)
                }
            } else {
                (conns.remove(key), TcpEvent::MissingAck)
            }
        } else {
            (conns, TcpEvent::Unhandled(tcb.state))
        }
    } else if !ports.contains(h.dst_port) {
        (conns, TcpEvent::PortClosed)
    } else if has_flag(h.flags, SYN) && !has_flag(h.flags, ACK) {
        (conns.insert(key, new_tcb(iss, h.seq_num)), TcpEvent::Accepted(iss))
    } else {
        (conns, TcpEvent::Refused)
    }
}

/// The shape of every block this host creates: the next sequence number to
/// send is one past the initial one, the next to receive one past the
/// peer's, and the connection is either in SYN-RECEIVED with nothing
/// acknowledged yet, or ESTABLISHED with everything sent acknowledged.
pub open spec fn tcb_consistent(t: TCB) -> bool {
    &&& t.snd_nxt == t.iss.wrapping_add(1)
    &&& t.rcv_nxt == t.irs.wrapping_add(1)
    &&& ((t.state == TCPState::SynReceived && t.snd_una == t.iss) || (t.state
        == TCPState::Established && t.snd_una == t.snd_nxt))
}

/// Every tracked connection has the shape of `tcb_consistent`.
pub open spec fn conns_consistent(conns: Map<ConnectionKey, TCB>) -> bool {
    forall|k: ConnectionKey| #[trigger] conns.contains_key(k) ==> tcb_consistent(conns[k])
}

/// Handling a segment keeps every tracked connection in the shape of
/// `tcb_consistent`; an empty table has that shape, so every table this
/// host builds has it.
pub proof fn law_step_keeps_connections_consistent(conns: Map<ConnectionKey, TCB>, ports: Set<u16>, key: ConnectionKey, h: TCPHeader, iss: u32)
    requires
        conns_consistent(conns),
    ensures
        conns_consistent(tcp_step(conns, ports, key, h, iss).0),
{
    let after = tcp_step(conns, ports, key, h, iss).0;
    assert forall|k: ConnectionKey| #[trigger] after.contains_key(k) implies tcb_consistent(
        after[k],
    ) by {
        if k != key {
            assert(conns.contains_key(k));
        }
    }
}

/// Handling a segment leaves every other connection as it was.
pub proof fn law_step_touches_only_its_connection(conns: Map<ConnectionKey, TCB>, ports: Set<u16>, key: ConnectionKey, h: TCPHeader, iss: u32, other: ConnectionKey)
    requires
        other != key,
    ensures
        tcp_step(conns, ports, key, h, iss).0.contains_key(other) == conns.contains_key(other),
        conns.contains_key(other) ==> tcp_step(conns, ports, key, h, iss).0[other]
            == conns[other],
{
}

/// Whatever its state, a tracked connection that receives RST is no longer tracked.
pub proof fn law_rst_forgets_connection(conns: Map<ConnectionKey, TCB>, ports: Set<u16>, key: ConnectionKey, h: TCPHeader, iss: u32)
    requires
        conns.contains_key(key),
        has_flag(h.flags, RST),
    ensures
        !tcp_step(conns, ports, key, h, iss).0.contains_key(key),
        tcp_step(conns, ports, key, h, iss).1 == TcpEvent::ResetReceived,
{
}

/// The three-way handshake: a SYN on a listening port opens a connection in
/// SYN-RECEIVED and owes a SYN-ACK starting at `iss`; a following segment
/// for the same connection that acknowledges `iss + 1` (and carries no RST)
/// establishes it, with the peer's sequence number one past its SYN.
pub proof fn law_handshake_establishes(conns: Map<ConnectionKey, TCB>, ports: Set<u16>, key: ConnectionKey, syn: TCPHeader, ack: TCPHeader, iss: u32, iss2: u32)
    requires
        opens_connection(conns, ports, key, syn),
        has_flag(ack.flags, ACK),
        !has_flag(ack.flags, RST),
        ack.ack_num == iss.wrapping_add(1),
    ensures
        ({
            let (c1, e1) = tcp_step(conns, ports, key, syn, iss);
            let (c2, e2) = tcp_step(c1, ports, key, ack, iss2);
            &&& e1 == TcpEvent::Accepted(iss)
            &&& c1 == conns.insert(key, new_tcb(iss, syn.seq_num))
            &&& e2 == TcpEvent::HandshakeComplete
            &&& c2 == conns.insert(
                key,
                TCB { state: TCPState::Established, snd_una: iss.wrapping_add(1), ..new_tcb(iss, syn.seq_num) },
            )
            &&& c2.contains_key(key)
            &&& c2[key].state == TCPState::Established
            &&& c2[key].iss == iss
            &&& c2[key].snd_una == iss.wrapping_add(1)
            &&& c2[key].snd_nxt == iss.wrapping_add(1)
            &&& c2[key].irs == syn.seq_num
            &&& c2[key].rcv_nxt == syn.seq_num.wrapping_add(1)
        }),
{
    let c1 = tcp_step(conns, ports, key, syn, iss).0;
    assert(c1.contains_key(key));
    assert(c1[key] == new_tcb(iss, syn.seq_num));
    let c2 = tcp_step(c1, ports, key, ack, iss2).0;
    assert(c2 =~= conns.insert(
        key,
        TCB { state: TCPState::Established, snd_una: iss.wrapping_add(1), ..new_tcb(iss, syn.seq_num) },
    ));
}

/// A SYN without ACK for an unknown connection on a listening port starts
/// tracking exactly that connection, in SYN-RECEIVED, with `iss` as its
/// initial send sequence number, nothing acknowledged yet, the next number
/// to send one past `iss`, the peer's initial number as received and the
/// next number to receive one past it (wrapping); it owes a SYN-ACK
/// starting at `iss`.
pub proof fn law_syn_opens_connection(conns: Map<ConnectionKey, TCB>, ports: Set<u16>, key: ConnectionKey, h: TCPHeader, iss: u32)
    requires
        !conns.contains_key(key),
        ports.contains(h.dst_port),
        has_flag(h.flags, SYN),
        !has_flag(h.flags, ACK),
    ensures
        ({
            let (c, e) = tcp_step(conns, ports, key, h, iss);
            &&& e == TcpEvent::Accepted(iss)
            &&& c.contains_key(key)
            &&& c.remove(key) == conns
            &&& c[key].state == TCPState::SynReceived
            &&& c[key].iss == iss
            &&& c[key].snd_una == iss
            &&& c[key].snd_nxt == iss.wrapping_add(1)
            &&& c[key].irs == h.seq_num
            &&& c[key].rcv_nxt == h.seq_num.wrapping_add(1)
        }),
{
    let c = tcp_step(conns, ports, key, h, iss).0;
    assert(c.remove(key) =~= conns);
}

/// A segment for an unknown connection whose port does not listen leaves
/// the table unchanged and is reset.
pub proof fn law_closed_port_refuses(conns: Map<ConnectionKey, TCB>, ports: Set<u16>, key: ConnectionKey, h: TCPHeader, iss: u32)
    requires
        !conns.contains_key(key),
        !ports.contains(h.dst_port),
    ensures
        tcp_step(conns, ports, key, h, iss) == (conns, TcpEvent::PortClosed),
{
}

/// A segment for an unknown connection on a listening port that is not a
/// SYN without ACK leaves the table unchanged and is reset.
pub proof fn law_non_syn_refused(conns: Map<ConnectionKey, TCB>, ports: Set<u16>, key: ConnectionKey, h: TCPHeader, iss: u32)
    requires
        !conns.contains_key(key),
        ports.contains(h.dst_port),
        !has_flag(h.flags, SYN) || has_flag(h.flags, ACK),
    ensures
        tcp_step(conns, ports, key, h, iss) == (conns, TcpEvent::Refused),
{
}

/// During the handshake, an ACK (without RST) that acknowledges anything
/// but the next number to send makes the connection be forgotten and reset.
pub proof fn law_wrong_ack_forgets(conns: Map<ConnectionKey, TCB>, ports: Set<u16>, key: ConnectionKey, h: TCPHeader, iss: u32)
    requires
        conns.contains_key(key),
        conns[key].state == TCPState::SynReceived,
        !has_flag(h.flags, RST),
        has_flag(h.flags, ACK),
        h.ack_num != conns[key].snd_nxt,
    ensures
        tcp_step(conns, ports, key, h, iss) == (conns.remove(key), TcpEvent::InvalidAck),
        !tcp_step(conns, ports, key, h, iss).0.contains_key(key),
{
}

/// During the handshake, a segment without ACK and without RST makes the
/// connection be forgotten and reset.
pub proof fn law_missing_ack_forgets(conns: Map<ConnectionKey, TCB>, ports: Set<u16>, key: ConnectionKey, h: TCPHeader, iss: u32)
    requires
        conns.contains_key(key),
        conns[key].state == TCPState::SynReceived,
        !has_flag(h.flags, RST),
        !has_flag(h.flags, ACK),
    ensures
        tcp_step(conns, ports, key, h, iss) == (conns.remove(key), TcpEvent::MissingAck),
        !tcp_step(conns, ports, key, h, iss).0.contains_key(key),
{
}

/// A tracked connection that is past (or outside) the handshake and
/// receives a segment without RST, whatever its other flags, numbers or
/// data, keeps its block: the table is unchanged and the segment is
/// reported as unhandled in the connection's state.
pub proof fn law_established_segment_keeps_connection(conns: Map<ConnectionKey, TCB>, ports: Set<u16>, key: ConnectionKey, h: TCPHeader, iss: u32)
    requires
        conns.contains_key(key),
        conns[key].state != TCPState::SynReceived,
        !has_flag(h.flags, RST),
    ensures
        tcp_step(conns, ports, key, h, iss) == (conns, TcpEvent::Unhandled(conns[key].state)),
        tcp_step(conns, ports, key, h, iss).0.contains_key(key),
        tcp_step(conns, ports, key, h, iss).0[key] == conns[key],
{
}

/// The SYN-ACK owed for a connection that a SYN opens matches the block
/// that is tracked for it: the SYN-ACK's sequence number is the block's
/// initial send number, one past it is the next number the block expects
/// to be acknowledged, and the SYN-ACK acknowledges the next number the
/// block expects to receive.
pub proof fn law_syn_ack_matches_tracked_connection(conns: Map<ConnectionKey, TCB>, ports: Set<u16>, key: ConnectionKey, h: TCPHeader, iss: u32)
    requires
        opens_connection(conns, ports, key, h),
    ensures
        ({
            let c = tcp_step(conns, ports, key, h, iss).0;
            let a = syn_ack_header(h, iss);
            &&& c[key].iss == a.seq_num
            &&& c[key].snd_nxt == a.seq_num.wrapping_add(1)
            &&& c[key].rcv_nxt == a.ack_num
        }),
{
}

/// An IPv4 address as a 32-bit number.
pub open spec fn ip_value(a: [u8; 4]) -> int {
    ((a[0] as int * 0x100 + a[1] as int) * 0x100 + a[2] as int) * 0x100 + a[3] as int
}

/// The number under which the connection `k` is stored.
pub open spec fn key_code(k: ConnectionKey) -> int {
    ((ip_value(k.src_ip) * 0x1_0000 + k.src_port as int) * 0x1_0000_0000 + ip_value(k.dst_ip))
        * 0x1_0000 + k.dst_port as int
}

/// Two numbers written with a digit below `base` at the end are equal only
/// if the digits and the leading parts are.
proof fn lemma_last_digit(a: int, b: int, c: int, d: int, base: int)
    requires
        base > 0,
        0 <= b < base,
        0 <= d < base,
        a * base + b == c * base + d,
    ensures
        a == c,
        b == d,
{
    assert((a - c) * base == d - b) by (nonlinear_arith)
        requires
            a * base + b == c * base + d,
    ;
    assert(a == c) by (nonlinear_arith)
        requires
            (a - c) * base == d - b,
            base > 0,
            -base < d - b < base,
    ;
}

/// `ip_value` tells addresses apart.
proof fn lemma_ip_value_injective(a: [u8; 4], b: [u8; 4])
    requires
        ip_value(a) == ip_value(b),
    ensures
        a == b,
{
    let a01 = a[0] as int * 0x100 + a[1] as int;
    let b01 = b[0] as int * 0x100 + b[1] as int;
    lemma_last_digit(a01 * 0x100 + a[2] as int, a[3] as int, b01 * 0x100 + b[2] as int, b[3] as int, 0x100);
    lemma_last_digit(a01, a[2] as int, b01, b[2] as int, 0x100);
    lemma_last_digit(a[0] as int, a[1] as int, b[0] as int, b[1] as int, 0x100);
    assert(a =~= b);
}

/// `ip_value` is a 32-bit number.
proof fn lemma_ip_value_range(a: [u8; 4])
    ensures
        0 <= ip_value(a) < 0x1_0000_0000,
{
}

/// `key_code` tells connections apart.
proof fn lemma_key_code_injective(k1: ConnectionKey, k2: ConnectionKey)
    requires
        key_code(k1) == key_code(k2),
    ensures
        k1 == k2,
{
    lemma_ip_value_range(k1.src_ip);
    lemma_ip_value_range(k2.src_ip);
    lemma_ip_value_range(k1.dst_ip);
    lemma_ip_value_range(k2.dst_ip);
    let a1 = ip_value(k1.src_ip) * 0x1_0000 + k1.src_port as int;
    let a2 = ip_value(k2.src_ip) * 0x1_0000 + k2.src_port as int;
    lemma_last_digit(a1 * 0x1_0000_0000 + ip_value(k1.dst_ip), k1.dst_port as int, a2 * 0x1_0000_0000 + ip_value(k2.dst_ip), k2.dst_port as int, 0x1_0000);
    lemma_last_digit(a1, ip_value(k1.dst_ip), a2, ip_value(k2.dst_ip), 0x1_0000_0000);
    lemma_last_digit(ip_value(k1.src_ip), k1.src_port as int, ip_value(k2.src_ip), k2.src_port as int, 0x1_0000);
    lemma_ip_value_injective(k1.src_ip, k2.src_ip);
    lemma_ip_value_injective(k1.dst_ip, k2.dst_ip);
}

/// Computes `ip_value(a)`.
fn ip_number(a: &[u8; 4]) -> (r: u128)
    ensures
        r == ip_value(*a),
{
    (((a[0] as u128) * 0x100 + a[1] as u128) * 0x100 + a[2] as u128) * 0x100 + a[3] as u128
}

/// Computes `key_code(*k)`.
fn key_number(k: &ConnectionKey) -> (r: u128)
    ensures
        r == key_code(*k),
{
    let s = ip_number(&k.src_ip);
    let d = ip_number(&k.dst_ip);
    proof {
        lemma_ip_value_range(k.src_ip);
        lemma_ip_value_range(k.dst_ip);
    }
    let a = s * 0x1_0000 + k.src_port as u128;
    assert(a < 0x1_0000_0000_0000);
    let b = a * 0x1_0000_0000 + d;
    assert(b < 0x1_0000_0000_0000_0000_0000) by (nonlinear_arith)
        requires
            a < 0x1_0000_0000_0000,
            d < 0x1_0000_0000,
            b == a * 0x1_0000_0000 + d,
    ;
    b * 0x1_0000 + k.dst_port as u128
}

/// The connections this host tracks and the ports it listens on.
pub struct TcpStack {
    connections: HashMap<u128, TCB>,
    listener: HashSet<u16>,
}

impl TcpStack {
    /// The tracked connections, by key.
    pub closed spec fn conns(&self) -> Map<ConnectionKey, TCB> {
        Map::new(
            |k: ConnectionKey| self.connections@.contains_key(key_code(k) as u128),
            |k: ConnectionKey| self.connections@[key_code(k) as u128],
        )
    }

    /// The ports this host listens on.
    pub closed spec fn ports(&self) -> Set<u16> {
        self.listener@
    }

    /// Tracks no connection and listens on no port.
    pub fn new() -> (r: TcpStack)
        ensures
            r.conns() == Map::<ConnectionKey, TCB>::empty(),
            r.ports() == Set::<u16>::empty(),
    {
        let r = TcpStack { connections: HashMap::new(), listener: HashSet::new() };
        assert(r.conns() =~= Map::<ConnectionKey, TCB>::empty());
        r
    }

    /// Starts listening on `port`.
    pub fn listen(&mut self, port: u16)
        ensures
            final(self).conns() == old(self).conns(),
            final(self).ports() == old(self).ports().insert(port),
    {
        self.listener.insert(port);
        assert(final(self).conns() =~= old(self).conns());
    }

    /// The block of the connection `key`, if it is tracked.
    pub fn connection(&self, key: &ConnectionKey) -> (r: Option<TCB>)
        ensures
            r is Some <==> self.conns().contains_key(*key),
            r matches Some(t) ==> t == self.conns()[*key],
    {
        let code = key_number(key);
        match self.connections.get(&code) {
            Some(t) => Some(*t),
            None => None,
        }
    }

    /// Whether a segment with header `tcp` carried by `ip` would open a new connection.
    pub fn opens_connection(&self, ip: &Ipv4HeaderFields, tcp: &TCPHeader) -> (r: bool)
        ensures
            r == opens_connection(self.conns(), self.ports(), key_of(*ip, *tcp), *tcp),
            r == (!self.conns().contains_key(key_of(*ip, *tcp)) && self.ports().contains(
                tcp.dst_port,
            ) && tcp.flags & SYN != 0 && tcp.flags & ACK == 0),
    {
        let key = ConnectionKey::for_segment(ip, tcp);
        let code = key_number(&key);
        !self.connections.contains_key(&code) && self.listener.contains(&tcp.dst_port)
            && check_flags(&tcp.flags, SYN) && !check_flags(&tcp.flags, ACK)
    }

    /// Forgets the connection stored under `code`.
    fn forget(&mut self, Ghost(key): Ghost<ConnectionKey>, code: u128)
        requires
            code == key_code(key),
        ensures
            final(self).conns() == old(self).conns().remove(key),
            final(self).ports() == old(self).ports(),
    {
        self.connections.remove(&code);
        proof {
            assert forall|k: ConnectionKey|
                #![trigger final(self).conns().contains_key(k)]
                final(self).conns().contains_key(k) == old(self).conns().remove(key).contains_key(
                    k,
                ) by {
                if key_code(k) == key_code(key) {
                    lemma_key_code_injective(k, key);
                }
            }
            assert(final(self).conns() =~= old(self).conns().remove(key));
        }
    }

    /// Stores `tcb` for the connection stored under `code`.
    fn store(&mut self, Ghost(key): Ghost<ConnectionKey>, code: u128, tcb: TCB)
        requires
            code == key_code(key),
        ensures
            final(self).conns() == old(self).conns().insert(key, tcb),
            final(self).ports() == old(self).ports(),
    {
        self.connections.insert(code, tcb);
        proof {
            assert forall|k: ConnectionKey|
                #![trigger final(self).conns().contains_key(k)]
                final(self).conns().contains_key(k) == old(self).conns().insert(
                    key,
                    tcb,
                ).contains_key(k) && (final(self).conns().contains_key(k)
                    ==> final(self).conns()[k] == old(self).conns().insert(key, tcb)[k]) by {
                if key_code(k) == key_code(key) {
                    lemma_key_code_injective(k, key);
                }
            }
            assert(final(self).conns() =~= old(self).conns().insert(key, tcb));
        }
    }

    /// Handles the segment with header `tcp` carried by `ip`; `iss` is the
    /// initial sequence number used if the segment opens a connection.
    pub fn handle_segment(&mut self, ip: &Ipv4HeaderFields, tcp: &TCPHeader, iss: u32) -> (ev: TcpEvent)
        ensures
            (final(self).conns(), ev) == tcp_step(
                old(self).conns(),
                old(self).ports(),
                key_of(*ip, *tcp),
                *tcp,
                iss,
            ),
            final(self).ports() == old(self).ports(),
            ({
                let key = key_of(*ip, *tcp);
                let before = old(self).conns();
                let after = final(self).conns();
                &&& before.contains_key(key) && has_flag(tcp.flags, RST) ==> !after.contains_key(key)
                    && ev == TcpEvent::ResetReceived
                &&& before.contains_key(key) && before[key].state != TCPState::SynReceived
                    && !has_flag(tcp.flags, RST) ==> after == before && ev == TcpEvent::Unhandled(
                    before[key].state,
                )
                &&& !before.contains_key(key) && !opens_connection(before, old(self).ports(), key, *tcp)
                    ==> after == before
                &&& opens_connection(before, old(self).ports(), key, *tcp) ==> {
                    &&& ev == TcpEvent::Accepted(iss)
                    &&& after.contains_key(key)
                    &&& after.remove(key) == before
                    &&& after[key].state == TCPState::SynReceived
                    &&& after[key].iss == iss
                    &&& after[key].snd_una == iss
                    &&& after[key].snd_nxt == iss.wrapping_add(1)
                    &&& after[key].irs == tcp.seq_num
                    &&& after[key].rcv_nxt == tcp.seq_num.wrapping_add(1)
                }
            }),
    {
        let key = ConnectionKey::for_segment(ip, tcp);
        let code = key_number(&key);
        let flags = tcp.flags;
        let found = match self.connections.get(&code) {
            Some(t) => Some(*t),
            None => None,
        };
        match found {
            Some(tcb) => {
                if check_flags(&flags, RST) {
                    self.forget(Ghost(key), code);
                    return TcpEvent::ResetReceived;
                }
                match tcb.state {
                    TCPState::SynReceived => {
                        if check_flags(&flags, ACK) {
                            if tcp.ack_num == tcb.snd_nxt {
                                let established = TCB {
                                    state: TCPState::Established,
                                    snd_una: tcp.ack_num,
                                    ..tcb
                                };
                                self.store(Ghost(key), code, established);
                                TcpEvent::HandshakeComplete
                            } else {
                                self.forget(Ghost(key), code);
                                TcpEvent::InvalidAck
                            }
                        } else {
                            self.forget(Ghost(key), code);
                            TcpEvent::MissingAck
                        }
                    },
                    state => TcpEvent::Unhandled(state),
                }
            },
            None => {
                if !self.listener.contains(&tcp.dst_port) {
                    return TcpEvent::PortClosed;
                }
                if check_flags(&flags, SYN) && !check_flags(&flags, ACK) {
                    let tcb = TCB {
                        state: TCPState::SynReceived,
                        iss,
                        snd_una: iss,
                        snd_nxt: iss.wrapping_add(1),
                        irs: tcp.seq_num,
                        rcv_nxt: tcp.seq_num.wrapping_add(1),
                    };
                    self.store(Ghost(key), code, tcb);
                    TcpEvent::Accepted(iss)
                } else {
                    TcpEvent::Refused
                }
            },
        }
    }

    /// Handles the segment with header `tcp` carried by `ip`; a connection
    /// it opens starts at a random initial sequence number.
    pub fn handle_segment_random(&mut self, ip: &Ipv4HeaderFields, tcp: &TCPHeader) -> (ev: TcpEvent)
        ensures
            ({
                let key = key_of(*ip, *tcp);
                let iss = match ev {
                    TcpEvent::Accepted(n) => n,
                    _ => 0,
                };
                &&& (final(self).conns(), ev) == tcp_step(
                    old(self).conns(),
                    old(self).ports(),
                    key,
                    *tcp,
                    iss,
                )
                &&& ev is Accepted <==> opens_connection(old(self).conns(), old(self).ports(), key, *tcp)
            }),
            final(self).ports() == old(self).ports(),
    {
        let iss = if self.opens_connection(ip, tcp) {
            random_iss()
        } else {
            0
        };
        self.handle_segment(ip, tcp, iss)
    }
}

/// A random initial sequence number, from `rand::random::<u32>()` (the
/// thread-local generator). Any `u32` may come back, so nothing is stated.
/// `rand::rng()`, which it uses, panics if the operating system's random
/// source cannot seed the generator.
#[verifier::external_body]
fn random_iss() -> u32 {
    rand::random()
}

} // verus!
