[package]
name = "yonder"
version = "0.1.0"
edition = "2021"
publish = false

[dependencies]
sha2 = "=0.11.1"
libc = "=0.2.191"
wait-timeout = "=0.2.1"
dirs = "=7.0.0"
serde = { version = "=1.0.229", features = ["derive"] }
serde_json = "=1.0.154"
toml = "=1.1.8"
clap = { version = "=4.6.7", features = ["derive"] }
rand = "0.8"
anyhow = "1"
thiserror = "2"
rusqlite = { version = "0.32", features = ["bundled"] }

[dev-dependencies]
tempfile = "=3.27.0"
