[package]
name = "duckdb_opendal"
version = "0.1.0"
edition = "2021"
publish = false

[dependencies]
foyer = "=0.22.6"
futures = "=0.3.34"
human-units = { version = "=0.6.0", features = ["iec-units"] }
opendal = { version = "=0.59.5", default-features = false, features = ["executors-tokio", "services-memory", "services-fs", "services-s3", "layers-retry", "layers-timeout", "layers-concurrent-limit", "layers-foyer"] }
opendal-http-transport-reqwest = { version = "=0.59.5", default-features = false }
percent-encoding = "=2.3.2"
rustls = { version = "=0.23.46", default-features = false, features = ["ring", "std"] }
serde_json = "=1.0.154"
tokio = { version = "=1.54.1", features = ["rt-multi-thread"] }
