[package]
name = "weather_core"
version = "0.1.0"
edition = "2021"
publish = false

[dependencies]
anyhow = "=1.0.104"
chrono = "=0.4.45"
chrono-tz = "=0.10.4"
fs2 = "=0.4.3"
log = "=0.4.35"
prost = "=0.13.5"
reqwest = { version = "=0.12.28", default-features = false, features = ["json", "rustls-tls"] }
same-file = "=1.0.6"
serde = { version = "=1.0.229", features = ["derive"] }
serde_json = "=1.0.154"
tempfile = "=3.27.0"
tokio = { version = "=1.54.1", features = ["rt-multi-thread", "macros", "sync", "time", "signal"] }
toml = "=0.8.23"
zeromq = "=0.4.1"
