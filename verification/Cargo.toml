[package]
name = "nginx_discovery"
version = "0.1.0"
edition = "2021"
publish = false

[dependencies]
anyhow = "=1.0.104"
chrono = "=0.4.45"
clap = { version = "=4.6.7", features = ["derive"] }
clap_complete = "4"
colored = "=2.2.0"
dialoguer = "*"
futures = "0.3"
reqwest = { version = "0.12", default-features = false }
serde = { version = "=1.0.229", features = ["derive"] }
serde_json = "=1.0.154"
serde_yaml = "=0.9.34"
tabled = "*"
thiserror = "=1.0.69"
tokio = { version = "1", features = ["net", "time", "rt", "macros"] }
toml = "=0.8.23"
which = "=8.0.6"
x509-parser = "*"
