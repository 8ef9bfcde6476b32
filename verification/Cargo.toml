[package]
name = "peer_wire"
version = "0.1.0"
edition = "2021"
publish = false

[dependencies]
bip_util = "=0.5.0"
