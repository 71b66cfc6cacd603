[package]
name = "taal_core"
version = "0.1.0"
edition = "2021"
publish = false

[dependencies]
serde = { version = "*", features = ["derive"] }
serde_json = "*"
quick-xml = "*"
symphonia = "*"
ndarray = "*"
anyhow = "*"
thiserror = "*"
time = { version = "*", features = ["serde"] }
