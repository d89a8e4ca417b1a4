[package]
name = "beat"
version = "0.1.0"
edition = "2021"
publish = false

[dependencies]
url = "2"
serde_json = "1"
serenity = { version = "0.12", default-features = false, features = ["builder", "cache", "client", "gateway", "http", "model", "rustls_backend", "voice"] }
songbird = { version = "0.4", features = ["builtin-queue"] }
tokio = { version = "1", default-features = false, features = ["macros", "rt-multi-thread", "signal", "sync"] }
reqwest = { version = "0.11", default-features = false, features = ["rustls-tls"] }
dotenv = "0.15"
tracing = "0.1"
tracing-subscriber = { version = "0.3", default-features = false, features = ["fmt"] }
