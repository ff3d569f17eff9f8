[package]
name = "tarball_store"
version = "0.1.0"
edition = "2021"
publish = false

[dependencies]
ssri = "9"
libdeflater = "1"
tar = { version = "0.4", default-features = false }
serde_json = "1"
bytes = "1"
reqwest = { version = "0.11", default-features = false, features = ["rustls-tls"] }
tokio = { version = "1", features = ["rt-multi-thread"] }
napi = { version = "2", features = ["async"] }
napi-derive = "2"
