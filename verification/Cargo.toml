[package]
name = "ephyr"
version = "0.1.0"
edition = "2021"
publish = false

[dependencies]
itertools = "*"
url = "*"
uuid = { version = "*", features = ["v4"] }
serde = { version = "1", features = ["derive"] }
serde_json = "1"
reqwest = { version = "*", default-features = false, features = ["json"] }
tokio = { version = "1", features = ["rt-multi-thread", "macros", "time", "process", "fs"] }
futures = "0.3"
anyhow = "1"
rust-argon2 = "*"
rand = "0.8"
