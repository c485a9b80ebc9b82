[package]
name = "avm_core"
version = "0.1.0"
edition = "2021"
publish = false

[dependencies]
fnv = "1.0.7"
indexmap = "2"
url = "=2.4.1"
serde = { version = "1", features = ["derive"] }
futures = "0.3"
