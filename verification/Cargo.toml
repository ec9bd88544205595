[package]
name = "underpass"
version = "0.1.0"
edition = "2021"
publish = false

[dependencies]
regex = "=1.13.1"
petgraph = "=0.6.5"
rand = "=0.8.8"
serde = { version = "=1.0.229", features = ["derive"] }
serde_json = "=1.0.154"
geojson = "=0.24.2"
geo = "=0.28.0"
moka = { version = "=0.12.16", features = ["future"] }
ahash = "=0.8.12"
rtree_rs = "=0.1.4"
thiserror = "=1.0.69"
tokio = { version = "=1.54.1", features = ["full"] }
axum = "=0.7.9"
reqwest = { version = "=0.12.28", default-features = false, features = ["json", "rustls-tls"] }
dotenv = "=0.15.0"
scraper = "=0.19.1"
backtrace = "=0.3.76"
tracing = "=0.1.44"
tracing-appender = "=0.2.5"
tracing-subscriber = { version = "=0.3.23", features = ["env-filter"] }
tracing-opentelemetry = "=0.24.0"
opentelemetry = "=0.23.0"
opentelemetry_sdk = { version = "=0.23.0", features = ["rt-tokio"] }
opentelemetry-otlp = { version = "=0.16.0", default-features = false, features = ["http-proto", "reqwest-client", "trace"] }
gdal = { version = "0.16", features = ["array"] }
