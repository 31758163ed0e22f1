[package]
name = "chd_studio"
version = "0.1.0"
edition = "2021"
publish = false

[dependencies]
dirs = "*"
which = "*"
anyhow = "1"
serde = { version = "1", features = ["derive"] }
serde_json = "1"
tokio = { version = "1", features = ["process", "rt-multi-thread", "time", "io-util", "sync", "macros"] }
reqwest = { version = "0.12", default-features = false, features = ["rustls-tls", "json"] }
zip = { version = "2", default-features = false, features = ["deflate"] }
tar = "0.4"
flate2 = "1"
