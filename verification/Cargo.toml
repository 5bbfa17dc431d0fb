[package]
name = "devsweep"
version = "0.1.0"
edition = "2021"
publish = false

[dependencies]
walkdir = "2"
dirs = "6"
crossterm = "0.28"
ratatui = "0.29"
humansize = "2"
serde = { version = "1", features = ["derive"] }
