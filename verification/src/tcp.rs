pub mod connection;
pub mod send;
pub mod tcp;
