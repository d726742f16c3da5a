[package]
name = "kitty_graphics_protocol"
version = "0.1.2"
edition = "2021"
publish = false

[dependencies]
base64 = "0.22"
libc = "0.2"
thiserror = "2"
