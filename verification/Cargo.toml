[package]
name = "co2_sensor"
version = "0.1.0"
edition = "2021"
publish = false

[dependencies]
axum = "0.7"
chrono = "0.4"
clap = { version = "4", features = ["derive"] }
csv = "1"
mh-z19 = "*"
minijinja = "1"
rand = "0.8"
serde = { version = "1", features = ["derive"] }
serial = "0.4"
tokio = { version = "1", features = ["full"] }
tower-http = { version = "0.5", features = ["cors", "trace", "fs"] }
tracing-subscriber = "0.3"
