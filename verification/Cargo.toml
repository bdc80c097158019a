[package]
name = "vodozemac_ffi"
version = "0.1.0"
edition = "2021"
publish = false

[dependencies]
vodozemac = "=0.11.1"
serde = { version = "=1.0.229", features = ["derive"] }
serde_json = "=1.0.154"
thiserror = "=2.0.21"
uniffi = "=0.32.2"
