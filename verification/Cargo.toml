[package]
name = "kanon-cost"
version = "0.1.0"
edition = "2021"
publish = false

[dependencies]
anyhow = "1"
bincode = "1"
borsh = "1"
clap = { version = "4", features = ["derive"] }
k256 = "=0.13.3"
risc0-zkvm = { version = "=3.0.6", default-features = false, features = ["client"] }
serde = { version = "1", features = ["derive"] }
tiny-keccak = { version = "=2.0.2", features = ["keccak"] }
