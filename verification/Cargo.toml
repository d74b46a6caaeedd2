[package]
name = "onehistory"
version = "0.1.0"
edition = "2021"
publish = false

[dependencies]
anyhow = "1"
chrono = "0.4"
clap = { version = "4", features = ["derive", "env", "cargo"] }
csv = "1"
env_logger = "0.10"
glob = "0.3"
home = "0.5"
indicatif = "0.17"
lazy_static = "1"
log = "0.4"
mime_guess = "2"
minijinja = "1"
regex = "1"
rusqlite = { version = "0.31", features = ["bundled"] }
serde = { version = "1", features = ["derive"] }
tempfile = "3"
tokio = { version = "1", features = ["rt-multi-thread"] }
warp = "0.3"
