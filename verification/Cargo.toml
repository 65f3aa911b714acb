[package]
name = "arm_tui"
version = "0.1.0"
edition = "2021"
publish = false

[dependencies]
anyhow = "1"
capstone = "0.12"
clap = { version = "4", features = ["derive"] }
crossterm = "0.28"
keystone-engine = "0.1.0"
ratatui = "0.29"
unicorn-engine = "2"
