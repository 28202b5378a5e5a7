[package]
name = "galemind"
version = "0.1.0"
edition = "2021"
publish = false

[dependencies]
urlencoding = "*"
tokio = { version = "*", features = ["rt-multi-thread", "macros", "sync"] }
reqwest = { version = "*", default-features = false }
serde = { version = "*", features = ["derive"] }
serde_json = "*"
dashmap = "*"
uuid = { version = "*", features = ["v4"] }
anyhow = "*"
async-trait = "*"
clap = "*"
