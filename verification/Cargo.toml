[package]
name = "workshop_hub"
version = "0.1.0"
edition = "2021"
publish = false

[dependencies]
chrono = "0.4"
rand = "0.9"
axum = "0.8"
tower-cookies = "0.11"
serde_urlencoded = "0.7"
serde = { version = "1", features = ["derive"] }
serde_json = "1"
serde_yaml = "0.9"
jsonwebtoken = "9"
kube = "1"
k8s-openapi = { version = "0.25", features = ["v1_31"] }
reqwest = { version = "0.12", default-features = false, features = ["json", "rustls-tls"] }
tokio = { version = "1", features = ["full"] }
askama = "0.12"
async-trait = "0.1"
pin-project = "1"
tower-http = { version = "0.6", features = ["trace"] }
tracing = "0.1"
tracing-subscriber = "0.3"
thiserror = "2"
envy = "0.4"
clap = { version = "4", features = ["derive"] }
sysinfo = { version = "0.35", default-features = false, features = ["system"] }
pingora = { version = "0.5", default-features = false, features = ["proxy"] }
