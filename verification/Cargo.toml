[package]
name = "i18n"
version = "0.1.0"
edition = "2021"
publish = false

[dependencies]
async-trait = "0.1"
base64 = "0.22"
chrono = "0.4"
futures-util = "0.3"
html-escape = "0.2"
reqwest = "0.11"
serde = { version = "1", features = ["derive"] }
serde_json = "1"
tokio-tungstenite = { version = "0.21", features = ["native-tls"] }
urlencoding = "2"
uuid = { version = "1", features = ["v4"] }

[dev-dependencies]
regex = "1"
