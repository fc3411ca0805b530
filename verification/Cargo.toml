[package]
name = "vernier_ffi"
version = "0.1.0"
edition = "2021"
publish = false

[dependencies]
arrow-array = { version = "*", features = ["ffi"] }
arrow-data = { version = "*", features = ["ffi"] }
arrow-schema = { version = "*", features = ["ffi"] }
core_affinity = "*"
numpy = "*"
pyo3 = { version = "*", features = ["abi3-py310", "extension-module"] }
rayon = "*"
serde = { version = "*", features = ["derive"] }
serde_json = "*"
thread-priority = "*"
