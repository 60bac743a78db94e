[package]
name = "chat_hub"
version = "0.1.0"
edition = "2021"
publish = false

[dependencies]
argon2 = "*"
async-stream = "*"
axum = "*"
chrono = "*"
dotenv = "*"
futures = "*"
http = "*"
jsonwebtoken = "*"
rustls = { version = "*", default-features = false, features = ["ring", "logging", "std", "tls12"] }
serde = { version = "*", features = ["derive"] }
sqlx = { version = "*", default-features = false, features = ["runtime-tokio", "postgres"] }
tokio = { version = "*", features = ["full"] }
tower-http = { version = "*", features = ["cors", "trace"] }
tracing = "*"
tracing-subscriber = { version = "*", features = ["env-filter"] }
