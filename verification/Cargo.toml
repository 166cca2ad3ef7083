[package]
name = "cli_hub"
version = "0.1.0"
edition = "2021"
publish = false

[dependencies]
serde = { version = "*", features = ["derive"] }
serde_json = "*"
toml = "*"
toml_edit = "*"
rusqlite = { version = "*", features = ["backup", "bundled"] }
chrono = "*"
regex = "*"
dirs = "*"
