[package]
name = "file_surfer"
version = "0.1.0"
edition = "2021"
publish = false

[dependencies]
serde = { version = "*", features = ["derive"] }
serde_json = "*"
dirs = "*"
walkdir = "*"
git2 = "*"
quick-xml = "*"
arboard = "*"
