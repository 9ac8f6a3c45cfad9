[package]
name = "rrepos"
version = "0.1.0"
edition = "2021"
publish = false

[dependencies]
anyhow = "*"
async-trait = "*"
chrono = "*"
clap = { version = "*", features = ["derive"] }
colored = "*"
reqwest = { version = "*", default-features = false, features = ["json", "rustls-tls"] }
serde = { version = "*", features = ["derive"] }
serde_json = "*"
serde_yaml = "*"
tokio = { version = "*", features = ["macros", "rt-multi-thread", "sync"] }
uuid = { version = "*", features = ["v4"] }
walkdir = "*"
