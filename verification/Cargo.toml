[package]
name = "ctb"
version = "0.1.0"
edition = "2021"
publish = false

[dependencies]
hex = "=0.4.3"
hmac = "=0.12.1"
jwt = "=0.16.0"
sha2 = "=0.10.9"
uuid = { version = "=1.27.0", features = ["v4"] }
chrono = "=0.4.45"
dotenv = "=0.15.0"
futures-util = "=0.3.34"
rand = "=0.10.3"
reqwest = { version = "=0.12.28", default-features = false, features = ["json", "rustls-tls"] }
serde = { version = "=1.0.229", features = ["derive"] }
serde_json = "=1.0.151"
tokio = { version = "=1.53.2", features = ["macros", "rt-multi-thread", "signal", "sync", "time"] }
tokio-tungstenite = "=0.30.0"
tungstenite = "=0.30.0"
webhook = "=2.1.2"
