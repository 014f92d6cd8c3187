[package]
name = "axum_oauth"
version = "0.1.0"
edition = "2021"
publish = false

[dependencies]
argon2 = "0.5"
askama = "0.12"
async-session = "3"
async-trait = "0.1"
axum = { version = "0.6", features = ["macros"] }
axum-macros = "0.3"
axum-sessions = "0.5"
futures = "0.3"
nanoid = "0.4"
once_cell = "1"
oxide-auth = "0.5"
oxide-auth-async = "0.1"
oxide-auth-axum = "0.3"
secrecy = "0.8"
serde = { version = "1", features = ["derive"] }
serde_json = "1"
serde_urlencoded = "0.7"
tokio = { version = "1", features = ["full"] }
tracing = "0.1"
tracing-subscriber = { version = "0.3", features = ["env-filter"] }
