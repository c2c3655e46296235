[package]
name = "nate-engine"
version = "0.1.0"
edition = "2021"
publish = false

[dependencies]
threadpool = "1.8"
ctrlc = "3.4"
clap = { version = "4", features = ["derive"] }
crossterm = "0.27"
ratatui = "0.26"
rand = "0.8"
