[package]
name = "oprc"
version = "0.1.0"
edition = "2021"
publish = false

[dependencies]
anyhow = "=1.0.104"
async-trait = "=0.1.92"
axum = "=0.8.9"
chrono = { version = "=0.4.45", default-features = false, features = ["clock"] }
envconfig = "=0.11.1"
http = "=1.5.0"
num_cpus = "=1.17.0"
reqwest = { version = "=0.12.28", default-features = false, features = ["rustls-tls"] }
schemars = "=1.2.3"
serde = { version = "=1.0.229", features = ["derive"] }
serde_json = "=1.0.154"
serde_yaml = "=0.9.34+deprecated"
tokio = { version = "=1.54.1", features = ["full"] }
tokio-util = "=0.7.20"
tonic = { version = "=0.14.9", default-features = false }
tower-http = { version = "=0.6.11", features = ["cors"] }
tracing = "=0.1.44"
tracing-subscriber = { version = "=0.3.23", features = ["env-filter"] }
validator = { version = "=0.20.0", features = ["derive"] }
wasmtime = { version = "=43.0.2", default-features = false, features = ["component-model", "cranelift", "runtime", "std"] }
