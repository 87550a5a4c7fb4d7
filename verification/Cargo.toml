[package]
name = "loot-mcp"
version = "0.1.0"
edition = "2021"
publish = false

[dependencies]
anyhow = "=1.0.104"
libloot = "=0.29.7"
rayon = "=1.12.0"
rmcp = { version = "1.8", features = ["server", "transport-io", "macros"] }
serde = { version = "=1.0.229", features = ["derive"] }
serde_json = "=1.0.154"
tokio = { version = "=1.54.1", features = ["rt-multi-thread", "macros", "io-std"] }
