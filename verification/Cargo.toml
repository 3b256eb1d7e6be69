[package]
name = "network_dash"
version = "0.1.0"
edition = "2021"
publish = false

[dependencies]
chrono = { version = "=0.4.45", default-features = false, features = ["clock", "serde", "std"] }
clap = { version = "=4.6.7", features = ["derive"] }
color-eyre = { version = "=0.6.5", default-features = false }
crossterm = { version = "=0.29.0", features = ["event-stream"] }
directories = "=6.0.0"
futures = "=0.3.34"
hickory-resolver = { version = "=0.26.3", default-features = false, features = ["system-config", "tokio"] }
ratatui = { version = "=0.30.2", default-features = false, features = ["crossterm"] }
reqwest = { version = "=0.12.28", default-features = false, features = ["rustls-tls"] }
rustls = { version = "=0.23.46", default-features = false, features = ["ring", "std", "tls12"] }
rustls-platform-verifier = "=0.6.2"
serde = { version = "=1.0.229", features = ["derive"] }
serde_json = "=1.0.154"
socket2 = "=0.6.5"
surge-ping = "=0.8.4"
sysinfo = { version = "=0.37.2", default-features = false, features = ["network"] }
tokio = { version = "=1.54.1", features = ["full"] }
tokio-rustls = { version = "=0.26.6", default-features = false, features = ["ring", "tls12"] }
toml = "=0.9.12"
x509-parser = "=0.18.1"
