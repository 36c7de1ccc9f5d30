[package]
name = "nginx_supervisor"
version = "0.1.0"
edition = "2021"
publish = false

[dependencies]
chrono = { version = "=0.4.45", features = ["serde"] }
dirs = "=7.0.0"
reqwest = { version = "=0.13.5", default-features = false }
serde = { version = "=1.0.229", features = ["derive"] }
serde_json = "=1.0.151"
tokio = { version = "=1.53.2", features = ["rt-multi-thread", "macros"] }
uuid = { version = "=1.27.0", features = ["v4"] }
zip = { version = "=8.6.0", default-features = false, features = ["deflate"] }
