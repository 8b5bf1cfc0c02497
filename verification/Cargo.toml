[package]
name = "mcp_database"
version = "0.1.0"
edition = "2021"
publish = false

[dependencies]
regex = "1"
serde = { version = "1", features = ["derive"] }
serde_json = "1"
mongodb = "2"
tokio = { version = "1", features = ["rt-multi-thread", "macros", "io-std", "io-util"] }
futures = "0.3"
