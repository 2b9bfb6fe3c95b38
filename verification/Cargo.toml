[package]
name = "csgo_server"
version = "0.1.0"
edition = "2021"
publish = false

[dependencies]
regex = "1"
urlencoding = "2"
tokio = { version = "1", features = ["full"] }
serde = { version = "1", features = ["derive"] }
serde_json = "1"
once_cell = "1"
serenity = "0.12"
poise = "0.6"
sqlx = { version = "0.8", default-features = false, features = ["sqlite", "runtime-tokio"] }
axum = "0.8"
maud = { version = "0.27", features = ["axum"] }
tower-http = { version = "0.6", features = ["fs"] }
tracing = "0.1"
tracing-subscriber = "0.3"
