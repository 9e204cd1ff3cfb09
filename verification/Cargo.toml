[package]
name = "citrea_network"
version = "0.1.0"
edition = "2021"
publish = false

[dependencies]
anyhow = "1"
discv5 = "0.10"
futures = "0.3"
hex = "0.4"
libp2p = { version = "0.56", features = ["tokio", "tcp", "quic", "noise", "yamux", "gossipsub", "mdns", "request-response", "json", "macros", "secp256k1", "ed25519"] }
rand = "0.8"
serde = { version = "1", features = ["derive"] }
serde_json = "1"
tokio = { version = "1", features = ["sync", "time", "macros", "rt"] }
tracing = "0.1"

