[package]
name = "news"
version = "0.1.0"
edition = "2021"
publish = false

[dependencies]
anyhow = "=1.0.104"
chrono = { version = "=0.4.45", features = ["serde"] }
url = "=2.5.8"
rss = "=2.1.2"
scraper = "=0.29.0"
readability = { version = "=0.3.0", default-features = false }
serde = { version = "=1.0.229", features = ["derive"] }
serde_json = "=1.0.154"
toml = "=0.8.23"
clap = { version = "=4.6.7", features = ["derive"] }
reqwest = { version = "=0.12.28", default-features = false, features = ["blocking", "json", "rustls-tls"] }
diesel = { version = "=2.2.12", features = ["sqlite", "postgres_backend", "chrono", "serde_json"] }
libsqlite3-sys = { version = "=0.35.0", features = ["bundled"] }
diesel-async = { version = "=0.5.2", features = ["postgres", "deadpool"] }
futures-util = { version = "=0.3.34", features = ["async-await-macro"] }
pgvector = { version = "=0.4.2", features = ["diesel"] }
axum = "=0.7.9"
tokio = { version = "=1.54.1", features = ["full"] }
tower-http = { version = "=0.5.2", features = ["cors", "trace"] }
tracing = "=0.1.44"
tracing-subscriber = "=0.3.23"
dotenv-flow = "=0.16.2"
utoipa = { version = "=4.2.3", features = ["axum_extras", "chrono"] }
