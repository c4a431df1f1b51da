[package]
name = "codex_text_tools"
version = "0.1.0"
edition = "2021"
publish = false

[dependencies]
sha1 = "0.10"
sha2 = "0.10"
serde_json = "1"
similar = "2"
serde = { version = "1", features = ["derive"] }
chrono = "0.4"
zip = "2"
anyhow = "1"
clap = { version = "4", features = ["derive"] }

[dev-dependencies]
tempfile = "3"
