[package]
name = "asc-core"
version = "0.1.0"
edition = "2021"
publish = false

[dependencies]
flate2 = "1"
sha2 = "0.10"
clap = { version = "4", features = ["derive"] }
memmap2 = "0.9"
serde = { version = "1", features = ["derive"] }
serde_json = "1"
