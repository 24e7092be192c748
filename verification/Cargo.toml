[package]
name = "testypf_core"
version = "0.1.0"
edition = "2021"
publish = false

[dependencies]
regex = "*"
read-fonts = "*"
typg-core = "*"
fontlift-core = "*"
pyo3 = "*"
serde = { version = "*", features = ["derive"] }
serde_json = "*"
image = "*"
