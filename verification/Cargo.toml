[package]
name = "toolcall"
version = "0.1.0"
edition = "2021"
publish = false

[dependencies]
anyhow = "1"
futures = "0.3"
parking_lot = "0.12"
pyo3 = { version = "0.23", features = ["abi3-py310", "extension-module"] }
pyo3-async-runtimes = { version = "0.23", features = ["tokio-runtime"] }
regex = "1"
serde = { version = "1", features = ["derive"] }
serde_json = { version = "1", features = ["raw_value"] }
tokio = { version = "1", features = ["macros", "rt", "rt-multi-thread", "sync", "time"] }
tracing = "0.1"
uuid = { version = "1", features = ["v4"] }
