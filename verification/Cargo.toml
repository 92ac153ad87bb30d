[package]
name = "kapir"
version = "0.1.0"
edition = "2021"
publish = false

[dependencies]
actix-cors = "0.7"
actix-web = "4"
actix-web-httpauth = "0.8"
chrono = { version = "0.4", features = ["serde"] }
config = "0.13"
derive_more = "0.99"
log = "0.4"
log4rs = "1"
mysql = "*"
serde = { version = "1", features = ["derive"] }
