[package]
name = "prospero"
version = "0.1.0"
edition = "2021"
publish = false

[dependencies]
flume = "*"
rusqlite = { version = "*", features = ["bundled"] }
tokio = { version = "*", features = ["rt-multi-thread", "macros", "process"] }
reqwest = { version = "*", default-features = false, features = ["rustls-tls", "json"] }
serde = { version = "*", features = ["derive"] }
serde_json = "*"
anyhow = "*"
