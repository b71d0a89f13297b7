[package]
name = "aperio"
version = "0.1.0"
edition = "2021"
publish = false

[dependencies]
toml_edit = "=0.25.18"
serde = { version = "=1.0.229", features = ["derive"] }
serde_json = "=1.0.154"
anyhow = "=1.0.104"
tokio = { version = "=1.54.1", features = ["rt-multi-thread", "net", "sync", "macros"] }
futures-util = "=0.3.34"
tokio-tungstenite = "=0.30.0"
pyo3 = "=0.30.1"
numpy = "=0.30.0"
