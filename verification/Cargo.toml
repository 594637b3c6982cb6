[package]
name = "invite_bot"
version = "0.1.0"
edition = "2021"
publish = false

[dependencies]
log = "0.4"
env_logger = "*"
chrono = "*"
sqlite = "*"
tokio = { version = "1", features = ["macros", "rt-multi-thread"] }
teloxide = { version = "=0.17.0", features = ["macros"] }
takecell = "=0.1.1"
