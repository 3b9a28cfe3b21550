[package]
name = "normandy"
version = "0.1.0"
edition = "2021"
publish = false

[dependencies]
clap = { version = "4", features = ["derive"] }
http = "1"
reqwest = { version = "0.12", default-features = false }
ron = "*"
serde = { version = "1", features = ["derive"] }
thiserror = "*"
tokio = { version = "1", features = ["rt-multi-thread", "macros", "sync", "fs", "time"] }
