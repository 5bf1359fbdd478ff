[package]
name = "msg2note"
version = "0.1.0"
edition = "2021"
publish = false

[dependencies]
chrono = "0.4"
fs2 = "0.4"
reqwest = { version = "0.12", default-features = false, features = ["json", "rustls-tls"] }
serde = { version = "1", features = ["derive"] }
serde_json = "1"
tokio = { version = "1", features = ["fs", "io-util", "macros", "rt", "sync", "time"] }
uuid = { version = "1", features = ["v4"] }
