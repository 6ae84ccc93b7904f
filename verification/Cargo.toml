[package]
name = "niri_sidebar"
version = "0.1.0"
edition = "2021"
publish = false

[dependencies]
regex = "*"
niri-ipc = "*"
serde = { version = "*", features = ["derive"] }
serde_json = "*"
toml = "*"
dirs = "*"
fslock = "*"
clap = { version = "*", features = ["derive"] }
anyhow = "*"
