[package]
name = "arc_client"
version = "0.1.0"
edition = "2021"
publish = false

[dependencies]
dirs = "=7.0.0"
reqwest = { version = "=0.13.5", default-features = false, features = ["cookies", "query"] }
serde = { version = "=1.0.229", features = ["derive"] }
serde_json = "=1.0.154"
tokio = { version = "=1.54.1", features = ["rt-multi-thread", "sync"] }
trash = "=5.2.9"
walkdir = "=2.5.0"
