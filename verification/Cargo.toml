[package]
name = "diffbelt"
version = "0.1.0"
edition = "2021"
publish = false

[dependencies]
regex = "1"
urlencoding = "2"
querystring = "1"
serde = { version = "1", features = ["derive"] }
serde_json = "1"
serde_with = "3"
hyper = { version = "0.14", features = ["server", "http1", "tcp", "runtime"] }
tokio = { version = "1", features = ["rt-multi-thread", "macros", "time", "sync"] }
futures = "0.3"
thiserror = "1"
tracing = "0.1"
tracing-subscriber = { version = "0.3", features = ["env-filter"] }
