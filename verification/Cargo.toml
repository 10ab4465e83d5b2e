[package]
name = "shlap"
version = "0.1.0"
edition = "2021"
publish = false

[dependencies]
anyhow = "=1.0.104"
atty = "0.2"
clap = { version = "=2.34.0", features = ["yaml"] }
serde_json = "=1.0.151"
termcolor = "1"
which = "=4.4.2"
yaml-rust = "=0.3.5"
