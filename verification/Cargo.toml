[package]
name = "rustnetlens-core"
version = "0.1.0"
edition = "2021"
publish = false

[dependencies]
async-trait = "=0.1.92"
base64 = "=0.22.1"
bytes = "=1.12.1"
chrono = { version = "=0.4.45", features = ["serde"] }
http = "=1.5.0"
http-body-util = "=0.1.5"
hyper = { version = "=1.12.0", features = ["full"] }
hyper-rustls = { version = "=0.27.10", default-features = false, features = ["http1", "http2", "ring", "webpki-roots", "tls12", "logging"] }
hyper-util = { version = "=0.1.21", features = ["full"] }
rcgen = { version = "=0.14.10", features = ["x509-parser"] }
reqwest = { version = "=0.12.28", default-features = false, features = ["rustls-tls"] }
ring = "=0.17.14"
rusqlite = { version = "=0.37.0", features = ["bundled"] }
rustls = { version = "=0.23.46", default-features = false, features = ["ring", "std", "tls12", "logging"] }
serde = { version = "=1.0.229", features = ["derive"] }
serde_json = "=1.0.154"
thiserror = "=2.0.21"
tokio = { version = "=1.54.1", features = ["full"] }
tokio-rustls = { version = "=0.26.6", default-features = false, features = ["ring", "logging", "tls12"] }
tracing = "=0.1.44"
tracing-subscriber = "=0.3.23"
uuid = { version = "=1.29.0", features = ["v4", "serde"] }

[dev-dependencies]
tempfile = "=3.27.0"
