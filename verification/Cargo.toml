[package]
name = "ci_orchestrator"
version = "0.1.0"
edition = "2021"
publish = false

[dependencies]
chrono = "=0.4.45"
futures = "=0.3.34"
jsonwebtoken = "9"
k8s-openapi = { version = "=0.28.0", features = ["latest"] }
kube = "=4.2.0"
log = "=0.4.34"
pretty_env_logger = "=0.5.0"
reqwest = { version = "0.12", default-features = false, features = ["json", "rustls-tls"] }
serde = { version = "1", features = ["derive"] }
serde_json = "1"
tokio = { version = "=1.54.1", features = ["macros", "rt-multi-thread", "time"] }
warp = { version = "=0.4.3", features = ["server"] }
