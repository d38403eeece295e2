[package]
name = "stealth_http"
version = "0.1.0"
edition = "2021"
publish = false

[dependencies]
async-trait = "0.1"
futures-util = "0.3"
http = "1"
tokio = { version = "1", features = ["sync"] }
tracing = "0.1"
url = "2"
wreq = { version = "6.0.0-rc.1", features = ["stream", "gzip"] }
wreq-util = "3.0.0-rc.1"
