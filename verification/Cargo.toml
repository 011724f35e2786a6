[package]
name = "seminar_node"
version = "0.1.0"
edition = "2021"
publish = false

[dependencies]
bitcoin = "0.32"
rand = "0.9"
tokio = { version = "1", features = ["full"] }
rusqlite = { version = "0.32", features = ["bundled"] }
clap = { version = "4", features = ["derive"] }
env_logger = "0.11"
log = "0.4"
thiserror = "2"
