[package]
name = "souls_lean"
version = "0.1.0"
edition = "2021"
publish = false

[dependencies]
dashmap = "*"
rustc-hash = "*"
similar = "*"
sqlparser = "*"
regex = "*"
url = "*"
tiktoken = "*"
serde = { version = "*", features = ["derive"] }
serde_json = "*"
walkdir = "*"
thiserror = "*"
