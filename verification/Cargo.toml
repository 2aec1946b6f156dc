[package]
name = "golem"
version = "0.1.0"
edition = "2021"
publish = false

[dependencies]
regex = "1"
irc = { version = "0.15", default-features = false }
tokio = { version = "1", features = ["rt-multi-thread", "macros"] }
tokio-postgres = "0.7"
futures = "0.3"
anyhow = "1"
log = "0.4"
dotenv = "0.15"
pretty_env_logger = "0.4"
