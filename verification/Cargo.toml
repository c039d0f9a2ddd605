[package]
name = "mysql_backup"
version = "0.1.0"
edition = "2021"
publish = false

[dependencies]
chrono = "*"
log = "*"
env_logger = "*"
reqwest = { version = "*", default-features = false, features = ["blocking", "json"] }
