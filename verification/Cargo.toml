[package]
name = "audit"
version = "0.1.0"
edition = "2021"
publish = false

[dependencies]
futures = "0.3"
netlink-packet-core = "*"
netlink-proto = "*"
