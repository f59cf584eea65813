[package]
name = "glm"
version = "0.1.0"
edition = "2021"
publish = false

[dependencies]
anyhow = "1"
clap = { version = "4", features = ["derive"] }
crossterm = "0.27"
path-absolutize = "3"
ratatui = "0.26"
