[package]
name = "pup"
version = "0.1.0"
edition = "2021"
publish = false

[dependencies]
anyhow = "=1.0.104"
chrono = "=0.4.45"
clap = { version = "=4.6.7", features = ["derive"] }
comfy-table = "=7.2.2"
reqwest = { version = "=0.12.28", default-features = false }
serde_json = { version = "=1.0.154", features = ["preserve_order"] }
serde_norway = "=0.9.42"
uuid = "=1.29.0"
