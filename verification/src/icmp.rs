pub mod icmp;
