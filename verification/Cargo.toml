[package]
name = "commit_scan"
version = "0.1.0"
edition = "2021"
publish = false

[dependencies]
chrono = "0.4"
git2 = { version = "*", default-features = false }
clap = { version = "4", features = ["derive"] }
