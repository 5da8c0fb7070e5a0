[package]
name = "chat_client"
version = "0.1.0"
edition = "2021"
publish = false

[dependencies]
anyhow = "*"
bytes = "*"
dialoguer = "*"
dotenvy = "*"
reqwest = { version = "*", default-features = false, features = ["json", "stream", "rustls-tls"] }
serde = { version = "*", features = ["derive"] }
serde_json = "*"
tokio = { version = "*", features = ["macros", "rt-multi-thread", "io-util"] }
tokio-stream = "*"
tokio-util = { version = "*", features = ["io"] }
