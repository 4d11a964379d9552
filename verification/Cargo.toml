[package]
name = "dpapi"
version = "0.1.0"
edition = "2021"
publish = false

[dependencies]
pyo3 = { version = "=0.22.6", features = ["extension-module", "abi3-py38"] }
windows = { version = "=0.59.0", features = ["Win32_Foundation", "Win32_Security_Cryptography"] }
