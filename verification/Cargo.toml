[package]
name = "vole-field"
version = "0.1.0"
edition = "2021"
publish = false

[dependencies]
blake3 = "1"
candle-core = "0.11.0"
candle-nn = "0.11.0"
entropyfs = { version = "0.7.17", default-features = false }
safetensors = "*"
serde = { version = "1", features = ["derive"] }
serde_json = "1"
