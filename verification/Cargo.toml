[package]
name = "crlf"
version = "0.1.0"
edition = "2021"
publish = false

[dependencies]
ansi_term = "0.12"
anyhow = "1"
atty = "0.2"
clap = { version = "4", features = ["derive"] }
git-version = "0.3"
glob = "0.3"
