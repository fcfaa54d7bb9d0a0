[package]
name = "prompt_hub"
version = "0.1.0"
edition = "2021"
publish = false

[dependencies]
password-auth = "=1.0.0"
argon2 = "=0.5.3"
axum = "=0.8.9"
axum-login = "=0.18.0"
axum-messages = "=0.8.0"
askama = "=0.16.1"
sqlx = { version = "=0.8.6", default-features = false, features = ["sqlite", "runtime-tokio"] }
tokio = { version = "=1.54.1", features = ["rt-multi-thread", "macros", "net", "time"] }
tower-http = { version = "=0.7.1", features = ["cors"] }
tower-sessions = { version = "=0.14.0", features = ["signed"] }
tower-sessions-sqlx-store = { version = "=0.15.0", features = ["sqlite"] }
tracing = "=0.1.44"
tracing-subscriber = "=0.3.23"
time = "=0.3.55"
serde = { version = "=1.0.229", features = ["derive"] }
serde_json = "=1.0.154"
jsonwebtoken = "=9.3.1"
once_cell = "=1.21.4"
