[package]
name = "blinkyboosts"
version = "0.1.0"
edition = "2021"
publish = false

[dependencies]
anyhow = "=1.0.104"
artnet_protocol = "=0.4.4"
hex = "=0.4.3"
lightning-invoice = "=0.34.1"
nostr = { version = "=0.45.5", features = ["std", "nip04", "nip47"] }
nostr-sdk = "=0.45.4"
reqwest = { version = "=0.13.5", default-features = false, features = ["json"] }
rosc = "=0.11.4"
sacn = "=0.11.1"
serde = { version = "=1.0.229", features = ["derive"] }
serde_derive = "=1.0.229"
serde_json = "=1.0.151"
tokio = { version = "=1.53.2", features = ["rt-multi-thread", "sync", "time", "macros"] }
tokio-util = "=0.7.19"
toml = "=1.1.6"
