[package]
name = "spr-nostr"
version = "0.1.0"
edition = "2021"
publish = false

[dependencies]
anyhow = "1"
axum = "0.8"
base64 = "0.22"
nostr = "0.44"
nostr-lmdb = "0.44"
nostr-relay-builder = "0.44"
serde = { version = "1", features = ["derive"] }
serde_json = "1"
tokio = { version = "1", features = ["full"] }
