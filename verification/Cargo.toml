[package]
name = "diameter_loadgen"
version = "0.1.0"
edition = "2021"
publish = false

[dependencies]
diameter = "*"
rand = "*"
tokio = { version = "*", features = ["rt", "rt-multi-thread", "time", "sync", "macros"] }
log = "*"
env_logger = "*"
chrono = "*"
mlua = { version = "*", features = ["lua54", "vendored", "serialize"] }
serde = { version = "*", features = ["derive"] }
humantime = "*"
reqwest = { version = "*", default-features = false, features = ["blocking"] }
url = "*"
