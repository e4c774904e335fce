[package]
name = "opcua-howick"
version = "0.1.0"
edition = "2021"
publish = false

[dependencies]
anyhow = "1"
async-opcua = { version = "*", features = ["server", "client"] }
notify = "*"
reqwest = { version = "0.12", default-features = false, features = ["json", "rustls-tls"] }
serde = { version = "1", features = ["derive"] }
tokio = { version = "1", features = ["full"] }
toml = "*"
tracing = "0.1"
tracing-subscriber = { version = "0.3", features = ["env-filter"] }
