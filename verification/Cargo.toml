[package]
name = "wasmcloud_provider_httpserver"
version = "0.1.0"
edition = "2021"
publish = false

[dependencies]
bytes = "=1.12.1"
flume = "=0.11.1"
futures = "=0.3.34"
http = "=0.2.12"
log = "=0.4.34"
serde = { version = "1", features = ["derive"] }
serde_bytes = "0.11"
thiserror = "=1.0.69"
tokio = { version = "=1.54.1", features = ["full"] }
toml = "=0.7.8"
tracing = "=0.1.44"
warp = { version = "=0.3.7", features = ["tls"] }
wasmbus-rpc = "=0.15.0"
