[package]
name = "brain_ops"
version = "0.1.0"
edition = "2021"
publish = false

[dependencies]
blake3 = "1"
smallvec = "1"
ciborium = "0.2"
parking_lot = "0.12"
serde = { version = "1", features = ["derive"] }
serde_json = "1"
tokio = { version = "1", features = ["sync", "time", "rt"] }
