[package]
name = "evm_in_rust"
version = "0.1.0"
edition = "2021"
publish = false

[dependencies]
primitive-types = "0.12"
tiny-keccak = { version = "2.0", features = ["keccak"] }
clap = { version = "4", features = ["derive"] }
serde_json = "1"
thiserror = "1"
