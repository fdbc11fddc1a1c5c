use tap_tcp::ip::ip::{Ipv4HeaderFields, MY_IP};
use tap_tcp::tcp::connection::{TcpEvent, TcpStack};
use tap_tcp::tcp::tcp::{ConnectionKey, TCPHeader, TCPState, ACK, FIN, RST, SYN, TCB};

const PEER_IP: [u8; 4] = [10, 0, 0, 1];

fn ip() -> Ipv4HeaderFields {
    Ipv4HeaderFields {
        version: 4,
        ihl: 5,
        tos: 0,
        total_length: 40,
        identification: 0,
        flags: 0,
        fragment_offset: 0,
        ttl: 64,
        protocol: 6,
        source: PEER_IP,
        destination: MY_IP,
    }
}

fn seg(dst_port: u16, flags: u16, seq: u32, ack: u32) -> TCPHeader {
    TCPHeader {
        src_port: 40000,
        dst_port,
        seq_num: seq,
        ack_num: ack,
        data_offset: 20,
        flags,
        window: 1000,
        checksum: 0,
        urgent_ptr: 0,
    }
}

fn key(port: u16) -> ConnectionKey {
    ConnectionKey { src_ip: MY_IP, src_port: port, dst_ip: PEER_IP, dst_port: 40000 }
}

fn listening() -> TcpStack {
    let mut s = TcpStack::new();
    s.listen(8080);
    s
}

#[test]
fn connection_key_of_segment_is_seen_from_this_host() {
    assert_eq!(ConnectionKey::for_segment(&ip(), &seg(8080, SYN, 0, 0)), key(8080));
}

#[test]
fn closed_port_is_reset() {
    let mut s = listening();
    let ev = s.handle_segment(&ip(), &seg(9090, SYN, 1, 0), 7);
    assert_eq!(ev, TcpEvent::PortClosed);
    assert!(ev.sends_rst());
    assert!(s.connection(&key(9090)).is_none());
}

#[test]
fn handshake_establishes_connection() {
    let mut s = listening();
    let ev = s.handle_segment(&ip(), &seg(8080, SYN, 1000, 0), 5000);
    assert_eq!(ev, TcpEvent::Accepted(5000));
    assert!(!ev.sends_rst());
    assert_eq!(
        s.connection(&key(8080)),
        Some(TCB {
            state: TCPState::SynReceived,
            snd_una: 5000,
            snd_nxt: 5001,
            rcv_nxt: 1001,
            irs: 1000,
            iss: 5000,
        })
    );
    let ev = s.handle_segment(&ip(), &seg(8080, ACK, 1001, 5001), 0);
    assert_eq!(ev, TcpEvent::HandshakeComplete);
    let tcb = s.connection(&key(8080)).expect("tracked");
    assert_eq!(tcb.state, TCPState::Established);
    assert_eq!(tcb.snd_una, 5001);
    let ev = s.handle_segment(&ip(), &seg(8080, ACK, 1001, 5001), 0);
    assert_eq!(ev, TcpEvent::Unhandled(TCPState::Established));
    assert_eq!(s.connection(&key(8080)), Some(tcb));
}

#[test]
fn initial_sequence_wraps() {
    let mut s = listening();
    s.handle_segment(&ip(), &seg(8080, SYN, u32::MAX, 0), u32::MAX);
    let tcb = s.connection(&key(8080)).expect("tracked");
    assert_eq!(tcb.snd_nxt, 0);
    assert_eq!(tcb.rcv_nxt, 0);
    assert_eq!(s.handle_segment(&ip(), &seg(8080, ACK, 0, 0), 0), TcpEvent::HandshakeComplete);
}

#[test]
fn wrong_ack_resets_and_forgets() {
    let mut s = listening();
    s.handle_segment(&ip(), &seg(8080, SYN, 10, 0), 100);
    let ev = s.handle_segment(&ip(), &seg(8080, ACK, 11, 999), 0);
    assert_eq!(ev, TcpEvent::InvalidAck);
    assert!(ev.sends_rst());
    assert!(s.connection(&key(8080)).is_none());
}

#[test]
fn missing_ack_resets_and_forgets() {
    let mut s = listening();
    s.handle_segment(&ip(), &seg(8080, SYN, 10, 0), 100);
    let ev = s.handle_segment(&ip(), &seg(8080, FIN, 11, 0), 0);
    assert_eq!(ev, TcpEvent::MissingAck);
    assert!(ev.sends_rst());
    assert!(s.connection(&key(8080)).is_none());
}

#[test]
fn rst_forgets_connection() {
    let mut s = listening();
    s.handle_segment(&ip(), &seg(8080, SYN, 10, 0), 100);
    let ev = s.handle_segment(&ip(), &seg(8080, RST | ACK, 11, 101), 0);
    assert_eq!(ev, TcpEvent::ResetReceived);
    assert!(!ev.sends_rst());
    assert!(s.connection(&key(8080)).is_none());
}

#[test]
fn non_syn_for_unknown_connection_is_refused() {
    let mut s = listening();
    assert_eq!(s.handle_segment(&ip(), &seg(8080, ACK, 1, 1), 0), TcpEvent::Refused);
    assert_eq!(s.handle_segment(&ip(), &seg(8080, SYN | ACK, 1, 1), 0), TcpEvent::Refused);
    assert!(s.connection(&key(8080)).is_none());
}

#[test]
fn other_connections_are_untouched() {
    let mut s = listening();
    s.listen(8081);
    s.handle_segment(&ip(), &seg(8080, SYN, 1, 0), 11);
    s.handle_segment(&ip(), &seg(8081, SYN, 2, 0), 22);
    s.handle_segment(&ip(), &seg(8081, RST, 3, 0), 0);
    assert!(s.connection(&key(8081)).is_none());
    assert_eq!(s.connection(&key(8080)).expect("tracked").iss, 11);
}

#[test]
fn random_initial_sequence_number() {
    let mut s = listening();
    assert!(s.opens_connection(&ip(), &seg(8080, SYN, 50, 0)));
    let ev = s.handle_segment_random(&ip(), &seg(8080, SYN, 50, 0));
    let iss = match ev {
        TcpEvent::Accepted(n) => n,
        other => panic!("unexpected {:?}", other),
    };
    let tcb = s.connection(&key(8080)).expect("tracked");
    assert_eq!(tcb.iss, iss);
    assert_eq!(tcb.snd_nxt, iss.wrapping_add(1));
    assert!(!s.opens_connection(&ip(), &seg(8080, SYN, 50, 0)));
    assert_eq!(
        s.handle_segment_random(&ip(), &seg(8080, ACK, 51, iss.wrapping_add(1))),
        TcpEvent::HandshakeComplete
    );
}
