[package]
name = "collab_auth"
version = "0.1.0"
edition = "2021"
publish = false

[dependencies]
sha2 = "0.10"
axum = { version = "0.6", default-features = false }
serde = { version = "1", features = ["derive"] }
serde_json = "1"
