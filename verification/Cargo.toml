[package]
name = "taskmaster"
version = "0.1.0"
edition = "2021"
publish = false

[dependencies]
bincode = "1.3"
chrono = "0.4"
hex = "0.4"
nix = { version = "0.26", features = ["signal", "fs", "process"] }
serde = { version = "1", features = ["derive"] }
sha1 = "0.10"
termion = "2"
yaml-rust = "0.4"
