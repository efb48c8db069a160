[package]
name = "wayland_server"
version = "0.1.0"
edition = "2021"
publish = false

[dependencies]
wayland-sys = { version = "0.14", features = ["server"] }
bitflags = "1.0"
libc = "0.2"
nix = "0.9"
token_store = "0.1"
