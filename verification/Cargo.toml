[package]
name = "rpd"
version = "0.1.0"
edition = "2021"
publish = false

[dependencies]
anyhow = "=1.0.104"
async-walkdir = "=2.2.0"
async_zip = { version = "=0.0.19", features = ["tokio", "deflate"] }
chrono = "=0.4.45"
clap = { version = "=4.6.7", features = ["derive"] }
futures-lite = "=2.6.1"
json_comments = "=0.2.2"
notify = "=8.2.0"
serde_json = { version = "=1.0.154", features = ["preserve_order", "arbitrary_precision"] }
tokio = { version = "=1.54.1", features = ["full"] }
tracing = "=0.1.44"
tracing-subscriber = "=0.3.23"
