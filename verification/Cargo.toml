[package]
name = "xtools"
version = "0.1.0"
edition = "2021"
publish = false

[dependencies]
serialport = { version = "*", default-features = false }
chrono = "*"
serde = { version = "*", features = ["derive"] }
serde_json = "*"
clap = { version = "*", features = ["derive"] }
crossterm = "*"
ctrlc = "*"
dirs = "*"
rustyline = "*"
