[package]
name = "rstat"
version = "0.1.0"
edition = "2021"
publish = false

[dependencies]
uuid = { version = "*", features = ["v4"] }
url = "*"
http = "*"
chrono = "*"
rand = "*"
serde = { version = "*", features = ["derive"] }
serde_yaml = "*"
tokio = { version = "*", features = ["rt-multi-thread", "net", "time", "sync", "macros"] }
reqwest = { version = "*", default-features = false }
clap = { version = "*", features = ["derive"] }
