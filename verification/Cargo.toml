[package]
name = "pagoo"
version = "0.1.0"
edition = "2021"
publish = false

[dependencies]
actix-web = { version = "4", default-features = false, features = ["macros"] }
anyhow = "1"
assert-json-diff = "2"
clap = "4"
log = "0.4"
pretty_env_logger = "0.5"
rusqlite = "*"
rusqlite_migration = "*"
serde = { version = "1", features = ["derive"] }
serde_json = "1"
tokio = { version = "1", features = ["rt", "sync"] }
