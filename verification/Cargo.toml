[package]
name = "bed_gateway"
version = "0.1.0"
edition = "2021"
publish = false

[dependencies]
rocket = { version = "0.5", features = ["json"] }
serde = { version = "1", features = ["derive"] }
log = "0.4"
env_logger = "*"
cbor = "*"
rustc-serialize = "*"

[dev-dependencies]
ciborium = "0.2"
