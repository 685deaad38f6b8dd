[package]
name = "logship"
version = "0.1.0"
edition = "2021"
publish = false

[dependencies]
actix-web = { version = "4", default-features = false, features = ["macros"] }
anyhow = "1"
async-trait = "0.1"
bollard = "0.13"
bytes = "1"
config = { version = "0.13", default-features = false }
dotenv = "0.15"
env_logger = "0.9"
futures-core = "0.3"
futures-util = "0.3"
log = "0.4"
rdkafka = "0.29"
reqwest = { version = "0.11", default-features = false }
serde = { version = "1", features = ["derive"] }
serde_json = "1"
thiserror = "1"
tokio = { version = "1", features = ["fs", "io-util", "macros", "rt", "rt-multi-thread", "sync", "time"] }
xid = "1"
