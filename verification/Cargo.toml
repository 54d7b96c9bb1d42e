[package]
name = "vendor_integrity"
version = "0.1.0"
edition = "2021"
publish = false

[dependencies]
clap = "2"
serde_json = { version = "1", features = ["preserve_order"] }
sha2 = "0.10"
toml = "0.5"
