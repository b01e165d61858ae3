[package]
name = "zeno_core"
version = "0.1.0"
edition = "2021"
publish = false

[dependencies]
arrow = { version = "=53.4.1", default-features = false }
chrono = "=0.4.39"
pyo3 = { version = "=0.22.6", features = ["abi3-py38"] }
rayon = "=1.12.0"
serde = { version = "=1.0.229", features = ["derive"] }
thiserror = "=1.0.69"
xxhash-rust = { version = "0.8", features = ["xxh3"] }
