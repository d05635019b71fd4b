[package]
name = "katya_mesh"
version = "0.1.0"
edition = "2021"
publish = false

[dependencies]
aes-gcm = "0.9"
async-trait = "0.1"
bincode = "1"
chacha20poly1305 = "0.9"
clap = "2"
dashmap = "5"
ed25519-dalek = "1"
futures = "0.3"
hex = "0.4"
hkdf = "0.12"
rand = "0.7"
serde = { version = "1", features = ["derive"] }
serde_json = "1"
sha2 = "0.10"
thiserror = "1"
tokio = { version = "1", features = ["full"] }
tokio-util = { version = "0.7", features = ["codec"] }
tracing = "0.1"
tracing-subscriber = { version = "0.3", features = ["env-filter"] }
uuid = { version = "1", features = ["v4"] }
