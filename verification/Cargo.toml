[package]
name = "changed_files"
version = "0.1.0"
edition = "2021"
publish = false

[dependencies]
glob = "0.3"
git2 = { version = "*", default-features = false }
clap = { version = "4", features = ["derive"] }
