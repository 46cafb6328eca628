[package]
name = "smr_state"
version = "0.1.0"
edition = "2021"
publish = false

[dependencies]
serde = { version = "=1.0.229", features = ["derive"] }
sha2 = "=0.10.9"
