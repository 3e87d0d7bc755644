[package]
name = "pingora_web"
version = "0.1.0"
edition = "2021"
publish = false

[dependencies]
flate2 = "*"
serde = { version = "*", features = ["derive"] }
serde_json = "*"
serde_urlencoded = "*"
mime_guess = "*"
http = "*"
bytes = "*"
async-trait = "*"
futures = "*"
tokio = { version = "*", features = ["rt", "time", "fs", "io-util", "sync", "macros"] }
tracing = "*"
