[package]
name = "mindtape"
version = "0.1.0"
edition = "2021"
publish = false

[dependencies]
evalexpr = "12"
typst-syntax = "0.14"
typst = "0.14"
typst-eval = "0.14"
typst-library = "0.14"
comemo = "*"
uuid = { version = "1", features = ["v7", "v4"] }
base62 = "*"
csv = "1"
comfy-table = "7"
directories = "*"
dirs = "*"
shellexpand = "3"
clap = { version = "4", features = ["derive"] }
serde = { version = "1", features = ["derive"] }
serde_json = "1"
toml = "*"
rusqlite = { version = "*", features = ["bundled"] }
notify = "8"
ignore = "*"
anyhow = "1"
thiserror = "*"
log = "0.4"
env_logger = "*"
sha2 = "0.10"
chrono = "0.4"
time = "0.3"
tempfile = "3"
