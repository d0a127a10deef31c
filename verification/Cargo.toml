[package]
name = "robyn"
version = "0.1.0"
edition = "2021"
publish = false

[dependencies]
actix-files = "0.6"
actix-http = "3"
actix-web = { version = "4", default-features = false, features = ["macros"] }
anyhow = "1"
dashmap = "6"
futures-util = "0.3"
matchit = "0.4"
mimalloc = { version = "0.1", default-features = false }
pyo3 = { version = "0.20", features = ["auto-initialize"] }
pyo3-asyncio = { version = "0.20", features = ["tokio-runtime"] }
pythonize = "0.20"
serde_json = "1"
socket2 = { version = "0.5", features = ["all"] }
