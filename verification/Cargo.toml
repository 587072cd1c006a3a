[package]
name = "codex_agent_kernel"
version = "0.1.0"
edition = "2021"
publish = false

[dependencies]
blake3 = "1"
hex = "0.4"
uuid = { version = "1", features = ["v4"] }
crc32fast = "1"
serde = { version = "1", features = ["derive"] }
serde_json = "1"
rusqlite = { version = "0.31", features = ["bundled"] }
clap = { version = "4", features = ["derive"] }
thiserror = "1"
tempfile = "3"
