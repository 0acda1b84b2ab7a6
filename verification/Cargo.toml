[package]
name = "rule_engine"
version = "0.1.0"
edition = "2021"
publish = false

[dependencies]
serde_json = { version = "=1.0.154", features = ["preserve_order"] }

[dev-dependencies]
serde_yaml = "0.8"
