[package]
name = "nultr"
version = "0.1.0"
edition = "2021"
publish = false

[dependencies]
argon2 = "=0.6.0"
jsonwebtoken = { version = "=11.1.0", features = ["rust_crypto"] }
rand = "=0.10.3"
tokio = { version = "=1.53.2", features = ["sync", "rt-multi-thread", "macros", "net"] }
axum = { version = "=0.8.9", features = ["ws"] }
serde = { version = "=1.0.229", features = ["derive"] }
serde_json = "=1.0.151"
clap = { version = "=4.6.7", features = ["derive"] }
chrono = { version = "=0.4.45", features = ["serde"] }
uuid = { version = "=1.27.0", features = ["v4", "serde"] }
futures = "=0.3.34"
