[package]
name = "mantis_infra"
version = "0.1.0"
edition = "2021"
publish = false

[dependencies]
chrono = { version = "=0.4.45", default-features = false, features = ["clock", "std"] }
rand = "=0.8.8"
tokio = { version = "=1.54.1", features = ["sync", "time", "rt", "macros"] }
serde_json = "=1.0.154"
serde = { version = "=1.0.229", features = ["derive"] }
log = "=0.4.35"
uuid = { version = "1", features = ["v4"] }
