[package]
name = "mailer"
version = "0.1.0"
edition = "2021"
publish = false

[dependencies]
actix-web = { version = "4", default-features = false, features = ["macros"] }
anyhow = "1"
chrono = { version = "0.4", features = ["serde"] }
env_logger = "*"
handlebars = "*"
lettre = { version = "0.11", features = ["tokio1", "tokio1-native-tls"] }
log = "0.4"
redis = { version = "*", features = ["tokio-comp"] }
serde = { version = "1", features = ["derive"] }
serde_json = "1"
tokio = { version = "1", features = ["rt-multi-thread", "macros", "time", "sync"] }
uuid = { version = "1", features = ["v4"] }
