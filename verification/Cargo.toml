[package]
name = "havy_kernel"
version = "0.1.0"
edition = "2021"
publish = false

[dependencies]
aes-gcm = "0.10"
hmac = "0.12"
sha2 = "0.10"
p256 = { version = "0.13", features = ["ecdh"] }
x25519-dalek = "2"
rand_core = "0.6"
embedded-graphics = "0.8"
smoltcp = { version = "0.12", default-features = false, features = ["alloc", "medium-ethernet", "proto-ipv4", "socket-tcp", "socket-udp", "socket-icmp"] }
