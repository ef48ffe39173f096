[package]
name = "energy_mix"
version = "0.1.0"
edition = "2021"
publish = false

[dependencies]
chrono = "0.4"
serde = { version = "1", features = ["derive"] }
log = "0.4"
env_logger = "*"
reqwest = { version = "*", default-features = false, features = ["blocking", "json"] }
