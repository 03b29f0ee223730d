[package]
name = "dkg"
version = "0.1.0"
edition = "2021"
publish = false

[dependencies]
parity-scale-codec = { version = "=3.7.5", features = ["derive"] }
webb-proposals = "=0.5.4"
ethereum = { version = "=0.14.0", features = ["with-codec"] }
sp-core = { version = "=21.0.0", default-features = false, features = ["full_crypto"] }
serde_json = "=1.0.154"
tokio = { version = "=1.54.1", features = ["sync", "rt", "time"] }
parking_lot = "=0.12.5"
sync_wrapper = "0.1"
log = "=0.4.35"
