[package]
name = "fantasy_sport"
version = "0.1.0"
edition = "2021"
publish = false

[dependencies]
chrono = { version = "0.4", default-features = false, features = ["clock", "std", "serde"] }
uuid = { version = "1", features = ["v4", "serde"] }
rand = "0.8"
serde = { version = "1", features = ["derive"] }
serde_json = "1"
tokio = { version = "1", features = ["macros", "rt-multi-thread", "sync", "time"] }
regex = "1"
lazy_static = "1"
futures = "0.3"
futures-util = "0.3"
tokio-tungstenite = "0.21"
url = "2"
async-trait = "0.1"
dotenv = "0.15"
itertools = "0.12"
