[package]
name = "kobold_dispatch"
version = "0.1.0"
edition = "2021"
publish = false

[dependencies]
anyhow = "1"
libc = "0.2"
radix_trie = "0.2"
rand = "0.8"
reqwest = { version = "0.11", default-features = false, features = ["json"] }
rustyline = "*"
serde = { version = "1", features = ["derive"] }
serde_json = "1"
serde_yaml = "0.9"
tokio = { version = "1", features = ["full"] }
