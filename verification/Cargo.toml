[package]
name = "aerospace_rules"
version = "0.1.0"
edition = "2021"
publish = false

[dependencies]
serde = { version = "1", features = ["derive"] }
serde_json = "1"
toml = "0.8"
shlex = "1"
tokio = { version = "1", features = ["full"] }
notify = "*"
clap = { version = "4", features = ["derive"] }
