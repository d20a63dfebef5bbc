[package]
name = "kontur"
version = "0.1.0"
edition = "2021"
publish = false

[dependencies]
ciborium = "0.2"
ed25519-dalek = "2"
sha2 = "0.10"
serde = { version = "1", features = ["derive"] }
serde-big-array = "0.5"
serde_json = "1"
tokio = { version = "1", features = ["full"] }
rcgen = "0.13"
rustls = { version = "0.23", default-features = false, features = ["ring", "std", "tls12"] }
tokio-rustls = { version = "0.26", default-features = false, features = ["ring", "tls12"] }
rmcp = { version = "*", features = ["server", "macros", "transport-async-rw", "schemars"] }
