[package]
name = "codex-budget-guard"
version = "0.1.0"
edition = "2021"
publish = false

[dependencies]
chrono = "0.4"
conservation-checker = "*"
serde = { version = "1", features = ["derive"] }
serde_json = "1"
thiserror = "2"
