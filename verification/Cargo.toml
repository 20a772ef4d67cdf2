[package]
name = "replistore"
version = "0.1.0"
edition = "2021"
publish = false

[dependencies]
anyhow = "1"
bs58 = "=0.5.1"
bytes = "1"
clap = { version = "4", features = ["derive"] }
dashmap = "*"
derive-hex = "=0.1.2"
dusk-bls12_381-sign = "=0.6.0"
dusk-bytes = "=0.1.7"
futures = "0.3"
nanoid = "*"
rand = "0.8"
sha3 = "=0.10.9"
tokio = { version = "1", features = ["full"] }
tokio-util = { version = "0.7", features = ["codec"] }
