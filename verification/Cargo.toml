[package]
name = "axum_baby"
version = "0.1.0"
edition = "2021"
publish = false

[dependencies]
anyhow = "1"
axum = "0.6"
chrono = "=0.4.45"
deadpool-redis = "0.14"
dotenv = "0.15"
ethers-core = { version = "=2.0.14", default-features = false }
jsonwebtoken = "8"
sea-orm = { version = "0.12", default-features = false, features = ["macros", "postgres-array", "sqlx-postgres", "runtime-tokio-rustls"] }
serde = { version = "1", features = ["derive"] }
serde_json = "1"
siwe = "=0.6.1"
tokio = { version = "1", features = ["macros", "rt-multi-thread"] }
tokio-cron-scheduler = "0.9"
tower-http = { version = "0.4", features = ["cors"] }
utoipa = "3"
validator = { version = "0.16", features = ["derive"] }
