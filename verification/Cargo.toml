[package]
name = "codexx"
version = "0.1.0"
edition = "2021"
publish = false

[dependencies]
shlex = "1.3"
serde_json = "1"
http = "1"
bytes = "1"
futures = "0.3"
tokio = { version = "1", features = ["sync", "time", "rt", "macros"] }
eventsource-stream = "0.2"
tracing = "0.1"
