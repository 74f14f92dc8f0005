[package]
name = "opengolfcoach_rust"
version = "0.1.0"
edition = "2021"
publish = false

[dependencies]
opengolfcoach = "=0.3.0"
pyo3 = { version = "=0.20.3", features = ["extension-module", "abi3-py38"] }
serde_json = "=1.0.154"
