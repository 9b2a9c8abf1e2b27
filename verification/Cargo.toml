[package]
name = "pages_vfs"
version = "0.1.0"
edition = "2021"
publish = false

[dependencies]
serde_json = "*"
serde = { version = "*", features = ["derive"] }
rusqlite = { version = "*", features = ["bundled", "serde_json"] }
sqlite-vfs = "*"
rand = "*"
log = "*"
pretty_env_logger = "*"
