[package]
name = "pwmgr"
version = "0.1.0"
edition = "2021"
publish = false

[dependencies]
anyhow = "1"
chrono = "0.4"
clap = { version = "4", features = ["derive"] }
directories = "*"
flexi_logger = "*"
log = "0.4"
redb = "*"
regex = "1"
rmp-serde = "1"
serde = { version = "1", features = ["derive"] }
serde_json = "1"
serde_yaml_ng = "*"
strsim = "0.11"
toml = "*"
ulid = "1"
