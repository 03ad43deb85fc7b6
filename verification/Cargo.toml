[package]
name = "whisper_decoder"
version = "0.1.0"
edition = "2021"
publish = false

[dependencies]
rand = "*"
anyhow = "*"
byteorder = "*"
candle-core = "*"
candle-nn = "*"
candle-transformers = "*"
hf-hub = { version = "*", default-features = false, features = ["ureq"] }
serde_json = "*"
tokenizers = { version = "*", default-features = false, features = ["onig"] }
