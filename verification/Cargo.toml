[package]
name = "polli_live"
version = "0.1.0"
edition = "2021"
publish = false

[dependencies]
rand = "*"
getrandom = "*"
hex = "*"
actix-web = "*"
actix-cors = "*"
actix-web-httpauth = "*"
tokio = { version = "*", features = ["rt", "rt-multi-thread", "time", "sync", "macros"] }
parking_lot = "*"
chrono = "*"
clap = { version = "*", features = ["derive"] }
serde = { version = "*", features = ["derive"] }
serde_json = "*"
anyhow = "*"
byte-unit = "*"
