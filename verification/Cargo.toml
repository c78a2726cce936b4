[package]
name = "akasabi"
version = "0.1.0"
edition = "2021"
publish = false

[dependencies]
anyhow = "1"
clap = { version = "4", features = ["derive", "env"] }
env_logger = "0.10"
etcetera = "0.8"
flate2 = "1"
itertools = "0.10"
nix = "0.26"
reqwest = { version = "0.11", features = ["blocking"] }
serde = { version = "1", features = ["derive"] }
tantivy = "0.19"
toml = "0.8"
wana_kana = "3"
xml-rs = "0.8"
yansi = "0.5"

[dev-dependencies]
tempfile = "3"
