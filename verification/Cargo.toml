[package]
name = "pubsub_relay"
version = "0.1.0"
edition = "2021"
publish = false

[dependencies]
config = { version = "0.14", default-features = false, features = ["yaml", "toml", "json"] }
env_logger = "0.11"
log = "0.4"
serde = { version = "1", features = ["derive"] }
thiserror = "1"
zmq = "0.10"
