[package]
name = "discord_relay"
version = "0.1.0"
edition = "2021"
publish = false

[dependencies]
dotenvy = "0.15"
futures-util = "0.3"
metrics = "0.24"
metrics-exporter-prometheus = { version = "*", default-features = false, features = ["http-listener"] }
reqwest = { version = "0.12", default-features = false, features = ["json", "rustls-tls"] }
serde = { version = "1", features = ["derive"] }
serde_json = "1"
tokio = { version = "1", features = ["macros", "rt-multi-thread", "signal", "sync", "time"] }
tokio-tungstenite = { version = "0.26", features = ["rustls-tls-webpki-roots"] }
tokio-util = "0.7"
tracing = "0.1"
tracing-subscriber = { version = "0.3", features = ["env-filter", "json"] }
veil = "*"
