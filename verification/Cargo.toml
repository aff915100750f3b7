[package]
name = "chat_client"
version = "0.1.0"
edition = "2021"
publish = false

[dependencies]
async-std = "1"
futures = "0.3"
async-tungstenite = { version = "*", features = ["async-std-runtime"] }
