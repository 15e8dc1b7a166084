[package]
name = "starlark_bridge"
version = "0.1.0"
edition = "2021"
publish = false

[dependencies]
allocative = "=0.3.4"
anyhow = "=1.0.104"
dupe = "=0.9.1"
gazebo = "=0.8.1"
pyo3 = "=0.26.0"
rust_decimal = "=1.43.0"
serde_json = { version = "=1.0.154", features = ["preserve_order"] }
starlark = "=0.13.0"
starlark_derive = "=0.13.0"
thiserror = "=1.0.69"
