[package]
name = "ogmios_gateway"
version = "0.1.0"
edition = "2021"
publish = false

[dependencies]
argon2 = "=0.5.3"
base64 = "=0.21.7"
bech32 = "=0.9.1"
leaky-bucket = "=1.1.2"
chrono = "=0.4.45"
futures-util = "=0.3.34"
http-body-util = "=0.1.5"
hyper = { version = "=1.12.0", features = ["full"] }
hyper-util = { version = "=0.1.21", features = ["full"] }
k8s-openapi = { version = "=0.21.1", features = ["latest"] }
kube = { version = "=0.88.1", features = ["runtime", "derive"] }
notify = "=6.1.1"
prometheus = "=0.13.4"
reqwest = { version = "=0.11.27", default-features = false, features = ["json", "rustls-tls"] }
rustls = "=0.22.4"
rustls-pemfile = "=2.2.0"
rustls-pki-types = "=1.15.1"
schemars = "=0.8.22"
serde = { version = "=1.0.229", features = ["derive"] }
serde_json = "=1.0.154"
serde_yaml = "=0.9.34"
tokio = { version = "=1.54.1", features = ["full"] }
tokio-rustls = "=0.25.0"
tokio-tungstenite = "=0.21.0"
toml = "=0.8.23"

[dev-dependencies]
regex = "1"
