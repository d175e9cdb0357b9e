[package]
name = "firehose_dispatch"
version = "0.1.0"
edition = "2021"
publish = false

[dependencies]
atrium-api = "=0.25.8"
atrium-xrpc-client = "=0.5.15"
axum = "=0.8.9"
chrono = "=0.4.45"
color-eyre = "=0.6.5"
futures = "=0.3.34"
ipld-core = { version = "=0.4.3", features = ["serde"] }
maud = { version = "=0.27.0", features = ["axum"] }
reqwest = { version = "=0.12.28", features = ["json"] }
rs-car = "=0.5.0"
serde = { version = "=1.0.229", features = ["derive"] }
serde_ipld_dagcbor = "=0.6.4"
sqlx = { version = "=0.9.0", features = ["postgres", "runtime-tokio"] }
tokio = { version = "=1.54.1", features = ["full"] }
tokio-tungstenite = { version = "=0.30.0", features = ["native-tls"] }
tracing = "=0.1.44"

[dev-dependencies]
sha2 = "=0.10.9"
