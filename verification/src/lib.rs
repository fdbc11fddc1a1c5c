//! A small userspace network stack: Ethernet, ARP, IPv4, ICMP, UDP and TCP
//! packets as bytes, the Internet checksum, the replies this host sends,
//! and the TCP connection table of a passive opener.
pub mod checksum;
pub mod eth;
pub mod icmp;
pub mod ip;
pub mod tcp;
pub mod udp;
pub mod wire;
