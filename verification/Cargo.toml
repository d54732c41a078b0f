[package]
name = "talaria"
version = "0.1.0"
edition = "2021"
publish = false

[dependencies]
chrono = "0.4"
serde = { version = "1", features = ["derive"] }
serde_json = "1"
ta = "*"
reqwest = { version = "*", features = ["blocking", "json"] }
tungstenite = "*"
flume = "*"
dotenv = "*"
coinbase-pro-rs = "*"
binance = "*"
