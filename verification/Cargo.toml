[package]
name = "fauxdb"
version = "0.1.0"
edition = "2021"
publish = false

[dependencies]
base64 = "=0.22.1"
chrono = "=0.4.45"
deadpool-postgres = "=0.14.2"
hmac = "=0.12.1"
md5 = "=0.7.0"
metrics = "=0.24.6"
num_cpus = "=1.17.0"
parking_lot = "=0.12.5"
rand = "=0.8.8"
regex = "1"
serde = { version = "=1.0.229", features = ["derive"] }
serde_json = { version = "=1.0.154", features = ["preserve_order"] }
serde_yaml = "=0.9.34"
sha2 = "=0.10.9"
thiserror = "=1.0.69"
tokio = { version = "=1.54.1", features = ["full"] }
tokio-postgres = "=0.7.18"
toml = "=0.8.23"
tracing = "=0.1.44"
tracing-subscriber = { version = "=0.3.23", features = ["env-filter"] }
uuid = { version = "=1.29.0", features = ["v4"] }

[dev-dependencies]
bson = "=2.15.0"
