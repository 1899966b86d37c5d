[package]
name = "shortest_url"
version = "0.1.0"
edition = "2021"
publish = false

[dependencies]
num = "0.4"
http = "0.2"
anyhow = "1"
axum = "0.6"
tokio = { version = "1", features = ["full"] }
tower-http = { version = "0.4", features = ["trace"] }
tracing = "0.1"
tracing-subscriber = { version = "0.3", features = ["env-filter", "json"] }
tracing-appender = "0.2"
tracing-log = "0.1"
uuid = { version = "1", features = ["v4"] }
warp = { version = "0.3", default-features = false }
serde = { version = "1", features = ["derive"] }
envy = "0.4"
dotenvy = "0.15"
config = { version = "0.13", default-features = false, features = ["yaml"] }
sqlx = { version = "0.7", default-features = false, features = ["runtime-tokio", "postgres"] }
