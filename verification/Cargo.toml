[package]
name = "megamerge"
version = "0.1.0"
edition = "2021"
publish = false

[dependencies]
pyo3 = { version = "0.15", features = ["extension-module"] }
numpy = { version = "0.15", features = ["rayon"] }
