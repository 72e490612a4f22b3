[package]
name = "multorum"
version = "0.1.0"
edition = "2021"
publish = false

[dependencies]
wax = "*"
serde = { version = "1", features = ["derive"] }
serde_json = "1"
toml = "*"
chrono = "0.4"
clap = { version = "4", features = ["derive"] }
clap_complete = "4"
thiserror = "*"

[dev-dependencies]
tempfile = "3"
