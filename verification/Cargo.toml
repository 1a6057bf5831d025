[package]
name = "chat_relay"
version = "0.1.0"
edition = "2021"
publish = false

[dependencies]
jsonwebtoken = "9"
serde_json = "1"
rand = "0.8"
tokio = { version = "1", features = ["rt-multi-thread", "macros", "net", "io-util", "sync"] }
diesel = { version = "2", features = ["sqlite", "r2d2"] }
bcrypt = "0.15"
clap = { version = "4", features = ["derive"] }
anyhow = "1"
chrono = "0.4"
image = { version = "0.24", default-features = false, features = ["png", "jpeg"] }

[dev-dependencies]
bincode = "1"
