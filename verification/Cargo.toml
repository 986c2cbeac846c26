[package]
name = "jobruntime"
version = "0.1.0"
edition = "2021"
publish = false

[dependencies]
anyhow = "=1.0.104"
clap = { version = "=3.2.25", features = ["derive"] }
prost = "=0.9.0"
tokio = { version = "=1.54.1", features = ["sync", "rt-multi-thread", "macros", "process", "io-util"] }
tokio-rustls = "=0.22.0"
tokio-stream = "=0.1.19"
tonic = { version = "=0.6.2", features = ["tls"] }
uuid = { version = "=0.8.2", features = ["v4"] }
x509-parser = "=0.12.0"
