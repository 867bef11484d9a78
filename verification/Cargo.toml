[package]
name = "poke_events"
version = "0.1.0"
edition = "2021"
publish = false

[dependencies]
anyhow = "*"
axum = "*"
chrono = "*"
dotenvy = "*"
log = "*"
sea-orm = { version = "*", features = ["sqlx-postgres", "runtime-tokio-rustls", "macros"] }
serde = { version = "*", features = ["derive"] }
serde_json = "*"
thiserror = "*"
tokio = { version = "*", features = ["macros", "rt-multi-thread"] }
tracing = "*"
tracing-subscriber = { version = "*", features = ["env-filter"] }
uuid = "*"
