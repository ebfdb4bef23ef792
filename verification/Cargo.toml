[package]
name = "ipv4_tcp_codec"
version = "0.1.0"
edition = "2021"
publish = false

[dependencies]
byteorder = "1"
