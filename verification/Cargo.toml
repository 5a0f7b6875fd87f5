[package]
name = "readql"
version = "0.1.0"
edition = "2021"
publish = false

[dependencies]
arrow-array = "=60.1.0"
arrow-schema = "=60.1.0"
axum = "0.8"
bytes = "1"
clap = { version = "4", features = ["derive"] }
itoa = "=1.0.18"
parquet = { version = "=60.1.0", default-features = false, features = ["arrow", "zstd"] }
ryu = "=1.0.23"
serde = { version = "1", features = ["derive"] }
tokio = { version = "1", features = ["macros", "net", "rt-multi-thread", "sync"] }
tokio-rusqlite = { version = "=0.7.0", features = ["bundled", "column_decltype"] }
tokio-stream = "0.1"
tower-http = { version = "0.6", features = ["cors"] }
tracing = "0.1"
tracing-subscriber = "0.3"
