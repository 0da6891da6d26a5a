[package]
name = "cstream"
version = "0.1.0"
edition = "2021"
publish = false

[dependencies]
anyhow = "1"
gstreamer = "0.23"
libc = "0.2"
