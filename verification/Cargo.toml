[package]
name = "sf_limiter"
version = "0.2.0"
edition = "2021"
publish = false

[dependencies]
pulp = "*"
pyo3 = "0.26"
numpy = "0.26"
