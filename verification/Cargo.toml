[package]
name = "slush"
version = "0.1.0"
edition = "2021"
publish = false

[dependencies]
nix = { version = "0.29", features = ["signal"] }
shared_child = "1.0"
