[package]
name = "cargo-timings"
version = "0.2.0"
edition = "2021"
publish = false

[dependencies]
anyhow = "1"
chrono = "0.4"
clap = { version = "4.6", features = ["derive"] }
crossterm = "0.29"
line-buffer = "*"
ratatui = "0.30"
regex = "1"
scraper = "0.27"
unicode-segmentation = "1"
