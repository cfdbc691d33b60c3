[package]
name = "moq_transfork"
version = "0.1.0"
edition = "2021"
publish = false

[dependencies]
bytes = "=1.12.1"
futures = "=0.3.34"
qlog-rs = { version = "=0.5.0", features = ["moq-transfork"] }
rand = "=0.9.5"
tokio = { version = "=1.54.1", features = ["macros", "rt", "sync"] }
tracing = "=0.1.44"
web-transport = "=0.8.2"
