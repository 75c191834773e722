[package]
name = "banpool"
version = "0.1.0"
edition = "2021"
publish = false

[dependencies]
anyhow = "1"
bson = { version = "2", features = ["chrono-0_4"] }
chrono = "0.4"
dotenv = "0.15"
env_logger = "0.10"
futures = "0.3"
log = "0.4"
mongodb = "2"
poise = "0.5"
serde = { version = "1", features = ["derive"] }
serenity = "0.11"
tokio = { version = "1", features = ["macros", "rt-multi-thread"] }
