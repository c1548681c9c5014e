[package]
name = "reqwest_retry_after"
version = "0.1.0"
edition = "2021"
publish = false

[dependencies]
time = { version = "*", features = ["parsing", "formatting"] }
http = "*"
reqwest = { version = "*", default-features = false }
reqwest-middleware = "*"
async-trait = "*"
tokio = { version = "*", features = ["sync", "time"] }
