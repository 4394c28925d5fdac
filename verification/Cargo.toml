[package]
name = "rust_quiz"
version = "0.1.0"
edition = "2021"
publish = false

[dependencies]
crossterm = "*"
futures-util = "*"
ratatui = "*"
serde = { version = "*", features = ["derive"] }
serde_json = "*"
tokio = { version = "*", features = ["full"] }
tokio-tungstenite = "*"
