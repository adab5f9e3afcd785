[package]
name = "chat_relay"
version = "0.1.0"
edition = "2021"
publish = false

[dependencies]
uuid = { version = "=1.27.0", features = ["v4", "serde"] }
chrono = "=0.4.45"
actix-web = "=4.15.0"
actix-ws = "=0.4.0"
actix-rt = "=2.15.0"
tokio = { version = "=1.53.2", features = ["sync", "rt"] }
futures = "=0.3.34"
ollama-rs = { version = "=0.3.6", features = ["stream"] }
dotenv = "=0.15.0"
serde = { version = "=1.0.229", features = ["derive"] }
