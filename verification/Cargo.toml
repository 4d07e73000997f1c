[package]
name = "benito_core"
version = "0.1.0"
edition = "2021"
publish = false

[dependencies]
anyhow = "1"
async-trait = "0.1"
parking_lot = "0.12"
serde_json = "1"
tokio = { version = "1", features = ["rt-multi-thread", "sync"] }
