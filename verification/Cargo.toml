[package]
name = "repgrep"
version = "0.1.0"
edition = "2021"
publish = false

[dependencies]
clap = { version = "*", features = ["derive"] }
tui = "*"
encoding = "*"

[dev-dependencies]
base64 = "0.13"
