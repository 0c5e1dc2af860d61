[package]
name = "portail"
version = "0.1.0"
edition = "2021"
publish = false

[dependencies]
anyhow = "1"
arc-swap = "=1.9.3"
caps = "0.5"
clap = { version = "4", features = ["derive"] }
fnv = "=1.0.7"
futures = "0.3"
gateway-api = { version = "=0.19.0", features = ["experimental"] }
k8s-openapi = { version = "=0.26.1", features = ["latest"] }
kube = { version = "=2.0.1", features = ["runtime", "derive", "unstable-runtime"] }
libc = "0.2"
rustls = "0.23"
schemars = "=1.2.3"
serde = { version = "1", features = ["derive"] }
serde_json = "=1.0.154"
serde_yaml = "0.9"
tokio = { version = "1", features = ["full"] }
tokio-util = "0.7"
tracing = "0.1"
tracing-subscriber = { version = "0.3", features = ["env-filter", "json"] }
