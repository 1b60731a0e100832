[package]
name = "polku_gateway"
version = "0.1.0"
edition = "2021"
publish = false

[dependencies]
anyhow = "=1.0.104"
async-trait = "=0.1.92"
axum = "=0.8.9"
base64 = "=0.22.1"
bytes = "=1.12.1"
chrono = "=0.4.45"
futures = "=0.3.34"
k8s-openapi = { version = "=0.26.1", features = ["v1_30"] }
kube = { version = "=2.0.1", default-features = false, features = ["client", "runtime"] }
parking_lot = "=0.12.5"
prometheus = { version = "=0.13.4", default-features = false }
prost = "=0.13.5"
reqwest = { version = "=0.12.28", default-features = false, features = ["json"] }
seppo = "=0.1.0"
serde = { version = "=1.0.229", features = ["derive"] }
serde_json = "=1.0.154"
sykli = "=0.5.3"
thiserror = "=2.0.21"
tokio = { version = "=1.54.1", features = ["rt-multi-thread", "macros", "sync", "time", "signal", "net"] }
tokio-stream = "=0.1.19"
tonic = "=0.12.3"
tracing = "=0.1.44"
tracing-subscriber = { version = "=0.3.23", features = ["env-filter"] }
ulid = "=1.2.1"
