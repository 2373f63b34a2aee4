[package]
name = "codex_toolkit"
version = "0.1.0"
edition = "2021"
publish = false

[dependencies]
anyhow = "1"
async-trait = "0.1"
clap = { version = "4", features = ["derive"] }
notify = "8"
reqwest = { version = "0.12", default-features = false }
serde = { version = "1", features = ["derive"] }
tempfile = "3"
thiserror = "2"
tokio = { version = "1", features = ["macros", "process", "rt", "sync", "time"] }
toml = "0.9"
tracing = "0.1"
url = "2"
