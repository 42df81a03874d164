[package]
name = "code_assistant_rust"
version = "0.1.0"
edition = "2021"
publish = false

[dependencies]
env_logger = "*"
log = "0.4"
pyo3 = { version = "0.15", features = ["extension-module"] }
tempfile = "3"
walkdir = "2"
