[package]
name = "basic_crm"
version = "0.1.0"
edition = "2021"
publish = false

[dependencies]
uuid = "=1.27.0"
axum = "=0.8.9"
tokio = { version = "=1.53.2", features = ["full"] }
edgedb-tokio = "=0.5.1"
edgedb-protocol = "=0.6.1"
serde = { version = "=1.0.229", features = ["derive"] }
serde_json = "=1.0.151"
