[package]
name = "codebase-to-prompt"
version = "0.1.0"
edition = "2021"
publish = false

[dependencies]
anyhow = "1"
chrono = "0.4"
clap = { version = "4", features = ["derive"] }
git2 = { version = "*", default-features = false }
ignore = "0.4"
tracing = "0.1"
tracing-subscriber = "0.3"
walkdir = "2"
