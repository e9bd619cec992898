[package]
name = "qatest"
version = "0.1.0"
edition = "2021"
publish = false

[dependencies]
anyhow = "=1.0.104"
axum = { version = "=0.8.9", features = ["ws"] }
chrono = "=0.4.45"
dotenvy = "=0.15.7"
futures-util = { version = "=0.3.34", features = ["sink"] }
reqwest = { version = "=0.12.28", default-features = false, features = ["json"] }
serde = { version = "=1.0.229", features = ["derive"] }
serde_json = "=1.0.154"
sha2 = "=0.10.9"
sqlx = { version = "0.8", default-features = false, features = ["runtime-tokio", "mysql", "chrono"] }
tokio = { version = "=1.54.1", features = ["full"] }
tokio-tungstenite = "=0.26.2"
tower-http = { version = "=0.6.11", features = ["cors", "fs"] }
tracing-appender = "=0.2.5"
url = "=2.5.8"
uuid = { version = "=1.29.0", features = ["v4"] }
