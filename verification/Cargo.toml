[package]
name = "quant_platform"
version = "0.1.0"
edition = "2021"
publish = false

[dependencies]
axum = { version = "*", features = ["ws"] }
tokio = { version = "*", features = ["full"] }
serde = { version = "*", features = ["derive"] }
serde_json = "*"
tower-http = { version = "*", features = ["cors"] }
redis = { version = "*", features = ["tokio-comp", "aio"] }
prometheus = "*"
futures-util = "*"
tokio-tungstenite = "*"
statrs = "*"
rand = "*"
rayon = "*"
csv = "*"
tokio-postgres = "*"
