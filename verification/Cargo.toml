[package]
name = "tap_tcp"
version = "0.1.0"
edition = "2021"
publish = false

[dependencies]
rand = "0.9.5"
tun-tap = "0.1"
