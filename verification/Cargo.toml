[package]
name = "neat"
version = "0.1.0"
edition = "2021"
publish = false

[dependencies]
rustc_apfloat = "*"
rand = "0.8"
svg = "*"
bincode = "1"
serde = { version = "1", features = ["derive"] }
