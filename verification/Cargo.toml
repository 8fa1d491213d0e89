[package]
name = "collector"
version = "0.1.0"
edition = "2021"
publish = false

[dependencies]
flate2 = "*"
serde_json = "*"
glob = "*"
indicatif = "*"
arrow = "*"
arrow-array = "*"
parquet = "*"

[dev-dependencies]
bytes = "*"
