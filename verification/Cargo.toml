[package]
name = "rustlab"
version = "0.1.0"
edition = "2021"
publish = false

[dependencies]
anstyle-parse = "=1.0.0"
base64 = "=0.23.1"
nbformat = "=3.0.0"
serde_json = "=1.0.154"
uuid = { version = "=1.29.0", features = ["v4"] }
jupyter-protocol = "=2.0.3"
jupyter-zmq-client = "=3.0.1"
anyhow = "=1.0.104"
tokio = { version = "=1.54.1", features = ["rt-multi-thread", "macros", "fs", "time", "sync", "process"] }
iced = { version = "=0.14.0", default-features = false, features = ["tiny-skia", "x11", "markdown", "image", "tokio"] }
