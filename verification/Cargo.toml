[package]
name = "ledger_core"
version = "0.1.0"
edition = "2021"
publish = false

[dependencies]
sha2 = "=0.10.9"
ring = "=0.17.14"
rand = "=0.8.8"
borsh = { version = "=1.8.1", features = ["derive"] }
