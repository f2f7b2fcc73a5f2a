[package]
name = "gadd"
version = "0.1.0"
edition = "2021"
publish = false

[dependencies]
anyhow = "=1.0.104"
clap = { version = "=4.6.7", features = ["derive"] }
crossbeam-channel = "=0.5.17"
crossterm = "=0.27.0"
git2 = { version = "=0.18.3", default-features = false }
kernel32-sys = "=0.2.2"
ratatui = "=0.26.3"
winapi = { version = "=0.3.9", features = ["winbase"] }

[dev-dependencies]
tempfile = "3"
