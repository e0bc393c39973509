[package]
name = "sutra_engine"
version = "0.1.0"
edition = "2021"
publish = false

[dependencies]
serde_json = "=1.0.154"
uuid = { version = "=1.29.0", features = ["v4"] }
time = { version = "=0.3.55", features = ["parsing", "formatting"] }
jsonwebtoken = { version = "=10.4.0", default-features = false, features = ["rust_crypto", "use_pem"] }
axum = "=0.8.9"
reqwest = { version = "=0.12.28", default-features = false, features = ["json", "rustls-tls"] }
tokio = { version = "=1.54.1", features = ["full"] }
async-trait = "=0.1.92"
sqlx = { version = "=0.8.6", default-features = false, features = ["runtime-tokio", "postgres", "uuid", "time"] }
tracing = "=0.1.44"
tracing-subscriber = { version = "=0.3.23", features = ["env-filter", "json"] }
opentelemetry = "=0.33.1"
opentelemetry_sdk = { version = "=0.33.1", features = ["testing", "rt-tokio"] }
opentelemetry-otlp = { version = "=0.33.1", features = ["grpc-tonic", "logs", "metrics", "trace"] }
opentelemetry-appender-tracing = "=0.33.1"
tracing-opentelemetry = "=0.34.0"

[dev-dependencies]
ed25519-dalek = { version = "=2.2.0", features = ["rand_core", "pkcs8"] }
p256 = { version = "=0.13.2", features = ["pem", "pkcs8", "ecdsa"] }
rand = "=0.8.8"
rsa = "=0.9.10"
