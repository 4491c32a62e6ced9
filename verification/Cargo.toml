[package]
name = "peer_daemon"
version = "0.1.0"
edition = "2021"
publish = false

[dependencies]
if-addrs = "=0.15.0"
libc = "=0.2.191"
socket2 = { version = "=0.6.5", features = ["all"] }
tracing = "=0.1.44"
