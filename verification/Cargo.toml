[package]
name = "creche"
version = "0.2.0"
edition = "2021"
publish = false

[dependencies]
libc = "0.2"
nix = { version = "0.29", features = ["process", "signal", "fs"] }
bitflags = "2"
