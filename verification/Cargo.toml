[package]
name = "icn_core"
version = "0.1.0"
edition = "2021"
publish = false

[dependencies]
chrono = "0.4"
ed25519-dalek = "1.0.1"
env_logger = "0.10"
erased-serde = "0.3"
hex = "0.4"
log = "0.4"
lru = "0.7"
rand = "0.7"
serde = { version = "1", features = ["derive"] }
serde_json = "1"
sha2 = "0.9"
thiserror = "1"
tokio = { version = "1", features = ["rt", "rt-multi-thread", "sync", "macros", "time"] }
uuid = { version = "1", features = ["v4"] }
