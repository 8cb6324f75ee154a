[package]
name = "zeroblog_server"
version = "0.1.0"
edition = "2021"
publish = false

[dependencies]
ammonia = "3"
chrono = "0.4"
clap = "2"
log = "0.4"
maud = "0.26"
notify = "4"
pretty_env_logger = "0.5"
pulldown-cmark = "0.9"
rocket = "0.5"
serde = { version = "1", features = ["derive"] }
serde_json = "1"
