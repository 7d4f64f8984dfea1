[package]
name = "nftables"
version = "0.1.0"
edition = "2021"
publish = false

[dependencies]
serde = { version = "1", features = ["derive"] }
serde_json = "1"
serde_path_to_error = "0.1"
schemars = "*"
thiserror = "*"
derive_builder = "*"
tokio = { version = "1", features = ["process", "io-util"] }
async-process = "2"
futures-lite = "2"
