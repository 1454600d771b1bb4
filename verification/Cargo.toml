[package]
name = "wait_online"
version = "0.1.0"
edition = "2021"
publish = false

[dependencies]
libc = "*"
nix = { version = "*", features = ["net", "socket"] }
clap = { version = "*", features = ["derive"] }
