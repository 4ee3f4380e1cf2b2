[package]
name = "dif"
version = "0.1.0"
edition = "2021"
publish = false

[dependencies]
anyhow = "*"
arboard = "*"
crossterm = "*"
portable-pty = "*"
ratatui = "*"
serde = { version = "*", features = ["derive"] }
syntect = "*"
toml = "*"
vt100 = "*"
