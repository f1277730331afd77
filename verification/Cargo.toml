[package]
name = "shared_registry"
version = "0.1.0"
edition = "2021"
publish = false

[dependencies]
mould = { version = "=0.0.22", default-features = false }
permission = "=0.1.0"
serde_json = "1"
