[package]
name = "ci_tools"
version = "0.1.0"
edition = "2021"
publish = false

[dependencies]
regex = "=1.13.1"
serde = { version = "=1.0.229", features = ["derive"] }
serde_json = "=1.0.154"
hubcaps = { version = "=0.6.2", default-features = false, features = ["rustls-tls"] }
tokio = { version = "=0.2.25", features = ["rt-core"] }
futures = "=0.3.34"
