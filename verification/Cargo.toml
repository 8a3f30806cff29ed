[package]
name = "unidpp-trust"
version = "0.1.0"
edition = "2021"
publish = false

[dependencies]
axum = "0.8"
serde_json = "1"
serde_yaml = "0.9"
tokio = { version = "1", features = ["full"] }
utoipa = "5"
utoipa-swagger-ui = { version = "9", features = ["axum", "vendored"] }
