[package]
name = "stable_worldmodel"
version = "0.1.0"
edition = "2021"
publish = false

[dependencies]
anyhow = "1"
candle-core = "*"
candle-nn = "*"
candle-transformers = "*"
clap = { version = "4", features = ["derive"] }
hf-hub = { version = "*", default-features = false, features = ["ureq"] }
serde = { version = "1", features = ["derive"] }
serde_json = "1"
nvjpeg-sys = "*"
