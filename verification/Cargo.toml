[package]
name = "v8_runner"
version = "0.1.0"
edition = "2021"
publish = false

[dependencies]
quick-xml = "=0.37.5"
serde_json = "=1.0.154"
serde = { version = "=1.0.229", features = ["derive"] }
serde_yaml = "=0.9.34"
clap = { version = "=4.6.7", features = ["derive", "env"] }
tempfile = "=3.27.0"
thiserror = "=2.0.21"
tracing = "=0.1.44"
tokio-util = "=0.7.20"
libc = "=0.2.191"
reqwest = { version = "=0.12.28", default-features = false, features = ["blocking", "json"] }
rmcp = { version = "=1.6.0", default-features = false }
