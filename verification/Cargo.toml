[package]
name = "brane_vm"
version = "0.1.0"
edition = "2021"
publish = false

[dependencies]
base64 = "0.13"
bytes = "=1.12.1"
path-clean = "0.1"
prost = "=0.11.9"
serde = { version = "=1.0.229", features = ["derive"] }
serde_yaml = "=0.9.34"
smallvec = "=1.16.4"
time = "=0.3.55"
url = "=2.5.8"
