[package]
name = "fleetcore"
version = "0.1.0"
edition = "2021"
publish = false

[dependencies]
ed25519-dalek = "=2.2.0"
sha2 = "=0.10.9"
percent-encoding = "=2.3.2"
serde = { version = "1", features = ["derive"] }
axum = "0.7"
tokio = { version = "1", features = ["full"] }
tokio-stream = { version = "0.1", features = ["sync"] }
futures = "0.3"
reqwest = { version = "0.12", default-features = false, features = ["json"] }
nanoid = "0.4"
rand = "0.8"
risc0-zkvm = { version = "=3.0.6", default-features = false, features = ["client"] }
