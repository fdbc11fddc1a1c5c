pub mod quote;
pub mod udp;
