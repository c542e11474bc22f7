[package]
name = "eo9_stubs"
version = "0.1.0"
edition = "2021"
publish = false

[dependencies]
smoltcp = { version = "0.12", default-features = false, features = ["alloc", "medium-ethernet", "proto-ipv4", "socket-tcp", "socket-udp", "socket-dhcpv4"] }
