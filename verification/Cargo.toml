[package]
name = "preconf"
version = "0.1.0"
edition = "2021"
publish = false

[dependencies]
anyhow = "=1.0.104"
axum = "=0.8.9"
base64 = "=0.22.1"
clap = { version = "=4.6.7", features = ["derive"] }
ed25519-dalek = "=2.2.0"
hex = "=0.4.3"
incrementalmerkletree = { version = "=0.8.2", features = ["legacy-api"] }
orchard = "=0.15.5"
rand = "0.8"
reqwest = { version = "=0.12.28", default-features = false, features = ["json"] }
rusqlite = { version = "=0.37.0", features = ["bundled"] }
serde = { version = "1", features = ["derive"] }
serde_json = "=1.0.154"
tokio = { version = "1", features = ["full"] }
tokio-util = "0.7"
toml = "0.9"
tower = { version = "=0.5.3", features = ["util"] }
tracing = "0.1"
tracing-subscriber = { version = "0.3", features = ["json", "env-filter"] }
zakura-chain = "=4.1.0"
zcash_keys = { version = "=0.16.1", features = ["orchard", "sapling"] }
zcash_note_encryption = "=0.4.2"
zcash_primitives = { version = "=0.30.1", features = ["non-standard-fees"] }
zcash_protocol = "=0.10.6"
