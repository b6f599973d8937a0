[package]
name = "tvdb_v2"
version = "0.1.0"
edition = "2021"
publish = false

[dependencies]
serde = { version = "1", features = ["derive"] }
serde_json = "1"
isahc = "1"
once_cell = "1"
futures-lite = "1"
async-global-executor = "2"
pretty_env_logger = "0.5"
