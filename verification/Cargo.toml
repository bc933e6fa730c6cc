[package]
name = "jev_ops"
version = "0.1.0"
edition = "2021"
publish = false

[dependencies]
semver = "1"
dirs = "5"
clap = { version = "4", features = ["derive"] }
clap_complete = "4"
serde = { version = "1", features = ["derive"] }
serde_json = "1"
serde_yaml = "0.9"
ureq = { version = "2", features = ["json"] }
tracing = "0.1"
tracing-subscriber = { version = "0.3", features = ["env-filter"] }
