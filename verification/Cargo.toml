[package]
name = "serde_datalog"
version = "0.1.0"
edition = "2021"
publish = false

[dependencies]
clap = { version = "4", features = ["derive"] }
delegate = "*"
erased-serde = "*"
ron = "*"
rusqlite = { version = "*", features = ["bundled"] }
serde = "1"
serde_json = "1"
serde-transcode = "1"
serde_yaml = "*"
toml = "*"

[dev-dependencies]
arbitrary = "1"
arbitrary-json = "*"
rand = "*"
