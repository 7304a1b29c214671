[package]
name = "xvault"
version = "0.1.0"
edition = "2021"
publish = false

[dependencies]
alloy-primitives = "*"
alloy-rpc-types-eth = "*"
anyhow = "*"
base64 = "*"
hex = "*"
serde = { version = "*", features = ["derive"] }
serde_json = "*"
toml = "*"
