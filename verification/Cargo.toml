[package]
name = "vsock_packet"
version = "0.1.0"
edition = "2021"
publish = false

[dependencies]
vm-memory = { version = "0.8", features = ["backend-mmap"] }
