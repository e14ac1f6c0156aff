[package]
name = "release_updater"
version = "0.1.0"
edition = "2021"
publish = false

[dependencies]
data-encoding = "2"
reqwest = { version = "0.12", default-features = false, features = ["blocking", "rustls-tls"] }
ring = "0.17"
serde = { version = "1", features = ["derive"] }
serde_json = "1"

[dev-dependencies]
sha2 = "0.10"
