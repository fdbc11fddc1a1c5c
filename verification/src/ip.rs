pub mod ip;
