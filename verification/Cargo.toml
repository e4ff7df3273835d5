[package]
name = "sparkdns"
version = "0.1.0"
edition = "2021"
publish = false

[dependencies]
serde = { version = "1", features = ["derive"] }
serde_json = "1"
tokio = { version = "1", features = ["process", "time", "fs", "rt-multi-thread", "macros"] }
thiserror = "*"
which = "*"
directories = "*"
chrono = "0.4"
