[package]
name = "rust_util_tools"
version = "0.2.0"
edition = "2021"
publish = false

[dependencies]
strsim = "*"
rand = "*"
serde = { version = "*", features = ["derive"] }
serde_json = "*"
toml = "*"
thiserror = "*"
chrono = "*"
clap = { version = "*", features = ["derive"] }
crossterm = "*"
ratatui = "*"
once_cell = "*"
anyhow = "*"
