[package]
name = "hub_manifest"
version = "0.1.0"
edition = "2021"
publish = false

[dependencies]
dirs = "*"
anyhow = "*"

[dev-dependencies]
serde_json = "*"
