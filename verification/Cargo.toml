[package]
name = "lc3"
version = "0.1.0"
edition = "2021"
publish = false

[dependencies]
nix = { version = "=0.31.3", features = ["poll", "signal"] }
termios = "=0.3.3"
