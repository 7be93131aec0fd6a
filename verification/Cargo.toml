[package]
name = "requers"
version = "0.1.0"
edition = "2021"
publish = false

[dependencies]
base64 = "0.22"
hex = "0.4"
pyo3 = { version = "0.27", features = ["extension-module", "abi3-py39"] }
sha2 = "*"
ureq = { version = "3", default-features = false, features = ["native-tls", "gzip"] }
url = "2"
