[package]
name = "contact_relay"
version = "0.1.0"
edition = "2021"
publish = false

[dependencies]
actix-web = "=4.18.1"
ammonia = "=4.2.4"
chrono = "=0.4.45"
env_logger = "=0.11.11"
lettre = "=0.11.23"
log = "=0.4.34"
serde = { version = "=1.0.229", features = ["derive"] }
toml = "=1.1.8"
validator = "=0.21.0"
