[package]
name = "coinwagon"
version = "0.1.0"
edition = "2021"
publish = false

[dependencies]
dashmap = "*"
serde_json = "*"
reqwest = { version = "*", default-features = false, features = ["json"] }
tokio = { version = "*", features = ["rt"] }
clap = { version = "*", features = ["derive"] }
pyo3 = "*"
thiserror = "*"
