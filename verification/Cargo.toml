[package]
name = "order"
version = "0.1.0"
edition = "2021"
publish = false

[dependencies]
async-graphql = { version = "7", features = ["bson", "log"] }
async-graphql-axum = "7"
axum = "0.8"
axum-otel-metrics = "0.13"
bson = "2"
clap = { version = "4", features = ["derive"] }
futures = "0.3"
graphql_client = "0.14"
mongodb = "2.8"
once_cell = "1"
opentelemetry = "0.31"
opentelemetry-otlp = "0.31"
opentelemetry_sdk = "0.31"
reqwest = { version = "0.12", features = ["json"] }
serde = { version = "1", features = ["derive"] }
serde_json = "1"
tokio = { version = "1", features = ["full"] }
tracing = "0.1"
tracing-opentelemetry = "0.32"
tracing-subscriber = { version = "0.3", features = ["env-filter"] }
