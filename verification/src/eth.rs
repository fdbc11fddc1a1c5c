pub mod arp;
pub mod ethernet;
