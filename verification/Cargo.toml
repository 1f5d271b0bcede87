[package]
name = "send_modes"
version = "0.1.0"
edition = "2021"
publish = false

[dependencies]
rsa = "0.9"
chrono = "0.4"
reqwest = { version = "*", default-features = false }
tokio = { version = "1", features = ["rt", "time", "macros"] }
deadpool-postgres = "*"
deadpool-redis = "*"
serde_json = "1"

[dev-dependencies]
rand = "0.8"
