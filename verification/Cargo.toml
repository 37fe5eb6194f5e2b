[package]
name = "listings_api"
version = "0.1.0"
edition = "2021"
publish = false

[dependencies]
anyhow = "=1.0.104"
async-graphql = { version = "=7.2.1", default-features = false, features = ["uuid", "time", "decimal"] }
async-graphql-axum = "=7.2.1"
axum = "=0.8.9"
dotenvy = "=0.15.7"
futures-util = "=0.3.34"
meilisearch-sdk = "=0.33.0"
redis = { version = "=1.8.0", features = ["tokio-comp"] }
reqwest = { version = "=0.12.28", default-features = false, features = ["json"] }
rust-s3 = { version = "*", default-features = false, features = ["tokio-rustls-tls"] }
rust_decimal = "=1.43.0"
serde = { version = "=1.0.229", features = ["derive"] }
serde_json = "=1.0.154"
surrealdb = { version = "=3.3.4", default-features = false, features = ["protocol-ws"] }
thiserror = "=1.0.69"
time = { version = "=0.3.55", features = ["serde", "parsing", "formatting"] }
tokio = { version = "=1.54.1", features = ["macros", "rt-multi-thread", "signal", "net"] }
tower-http = { version = "*", features = ["cors", "trace"] }
tracing = "=0.1.44"
uuid = { version = "=1.29.0", features = ["v7", "serde"] }
