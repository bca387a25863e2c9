[package]
name = "unshare"
version = "0.1.0"
edition = "2021"

[dependencies]
libc = "0.2"
nix = "0.20"

[dev-dependencies]
rand = "0.8"
