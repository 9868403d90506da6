[package]
name = "hq"
version = "0.1.0"
edition = "2021"
publish = false

[dependencies]
globset = "*"
serde = { version = "1", features = ["derive"] }
serde_json = "1"
serde_yaml_ng = "*"
ureq = "3"
libc = "0.2"
tempfile = "3"
thiserror = "2"
clap = { version = "4", features = ["derive"] }
