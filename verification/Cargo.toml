[package]
name = "fxpipe"
version = "0.1.0"
edition = "2021"
publish = false

[dependencies]
regex = "1"
serde = { version = "1", features = ["derive"] }
serde_json = "1"
tokio = { version = "1", features = ["macros", "rt-multi-thread"] }
poem = "*"
poem-openapi = { version = "*", features = ["swagger-ui"] }
reqwest = "*"
config = "*"
log = "0.4"
env_logger = "*"
chrono = "0.4"
