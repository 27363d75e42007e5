[package]
name = "lmtranslater"
version = "0.1.0"
edition = "2021"
publish = false

[dependencies]
chrono = { version = "0.4", default-features = false, features = ["clock", "std"] }
image = { version = "0.24", default-features = false, features = ["png"] }
pyo3 = "0.20"
serde = { version = "1", features = ["derive"] }
serde_yaml = "0.9"
