[package]
name = "winbuf"
version = "0.1.0"
edition = "2021"
publish = false

[dependencies]
wayland-client = "*"
wayland-protocols = { version = "*", features = ["client"] }
tempfile = "*"
